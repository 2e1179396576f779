use taarof_app::git::{
    apply_git_info_to_workspace, parse_worktree_list, workspace_header_label,
    workspace_name_from_git_info, GitInfo,
};
use taarof_app::keybindings::Action;
use taarof_app::palette::pickers::TmuxUiState;
use taarof_app::palette::templates::SavedTab;
use taarof_app::pane::{PaneNavigationDirection, PaneNode, SplitDirection};
use taarof_app::task_launch::TaskLaunchSurface;
use taarof_app::window::actions::{
    new_workspace_name, window_command, workspace_chord_task_launch_request, WindowCommand,
    WindowSnapshot,
};
use taarof_app::window::chords::{
    follow_chord_key, hint_text, leader_action_from_chord_key, leader_overlay_entries,
    overlay_key_label, quick_action_overlay_entries, workspace_action_from_chord_key, ChordKey,
    ChordKeyEffect, ChordMap, ChordTarget,
};
use taarof_app::window::config_watch::{
    config_error_message, finish_live_config_reload, Finding, LiveConfigWatchState, ReloadEffect,
    ReloadResult, Severity,
};
use taarof_app::window::help_key::{help_key_matches, key_matches_as, Key, Modifiers, PressedKey};
use taarof_app::window::layout::{
    broadcast_indicator_text, divider_offset, sidebar_paned_policy, toggled_dock_visibility,
    SidebarDividerPosition, SidebarPosition,
};
use taarof_app::window::legend::RestoreLegend;
use taarof_app::window::lifecycle::{
    cleanup_socket_once, finish_project_registration, parse_focus_target, parse_u32,
    toast_timeout, validate_window_action_contract, ActionContractBreach, ProjectRegistration,
};
use taarof_app::window::registration::{
    continue_registration, register_focused_project, FocusedProjectSource, RegistrationEvent,
    RegistrationStep, RemoteGitIdentityOutcome,
};
use taarof_app::window::restore::{
    apply_saved_tab, apply_saved_workspace, background_starts_collapsed, plan_session_restore, startup_message, workspace_git_discovery_path,
    SavedSession, SavedWorkspace, TabRestore,
};
use taarof_app::window::search::{
    regex_escape, search_for, search_key, terminal_search_regex_flags, SearchChange, SearchKey,
    SearchKeyEffect, PCRE2_CASELESS, PCRE2_MULTILINE,
};
use taarof_app::window::seeding::{
    seed_headless_terminal_tab, seed_headless_terminal_tab_at, seed_pending_restore_tab,
    HeadlessPaneSeed,
};
use taarof_app::window::startup::{
    agent_launcher_candidates, check_launcher_identity, check_resume_handoff,
    choose_agent_launcher, gdk_wayland_disable_with_presentation,
    resume_request, resume_unavailable, validate_agent_launcher_identity,
    validate_resume_helper_identity, wants_build_info, BuildIdentity, ResumeRequest,
    SavedAgentResumeHandoff,
};
use taarof_app::tmux::TmuxTarget;
use taarof_app::workspace::{
    key_of_pane, AppState, BroadcastScope, ChordMode, Tab, TabKind, Workspace, WorkspaceAction,
    WorkspaceActionInfo,
};

fn texts(list: &[&str]) -> Vec<String> {
    list.iter().map(|s| s.to_string()).collect()
}

fn build(revision: &str, dirty: bool, id: &str) -> BuildIdentity {
    BuildIdentity {
        source_revision: Some(revision.into()),
        source_dirty: Some(dirty),
        build_id: Some(id.into()),
    }
}

fn launcher_output(revision: &str, dirty: bool) -> Option<Vec<u8>> {
    Some(
        format!("{{\"source_revision\":\"{revision}\",\"source_dirty\":{dirty}}}\n").into_bytes(),
    )
}

#[test]
fn saved_resume_helper_rejects_a_replaced_channel_launcher() {
    let app = build("original-revision", false, "build");
    assert_eq!(
        validate_agent_launcher_identity(&launcher_output("original-revision", false), &app),
        Ok(())
    );
    assert_eq!(
        validate_agent_launcher_identity(&launcher_output("replacement-revision", false), &app),
        Err("the agent launcher does not match the running app build")
    );
    assert_eq!(
        validate_agent_launcher_identity(&launcher_output("original-revision", true), &app),
        Err("the agent launcher does not match the running app build")
    );
    assert_eq!(
        validate_agent_launcher_identity(&Some(b"not json".to_vec()), &app),
        Err("the channel-matched agent launcher identity is malformed")
    );
    assert_eq!(
        validate_agent_launcher_identity(&None, &app),
        Err("the channel-matched agent launcher identity is unreadable")
    );
    let unknown = BuildIdentity {
        source_revision: None,
        ..app
    };
    assert!(
        validate_agent_launcher_identity(&launcher_output("original-revision", false), &unknown)
            .is_err()
    );
    assert!(check_launcher_identity(&None, &unknown).is_err());
}

#[test]
fn saved_resume_helper_rejects_replacement_app_build() {
    let original = build("revision", false, "build");
    let mut replacement = original.clone();
    replacement.build_id = Some("replacement-build".into());
    assert_eq!(
        validate_resume_helper_identity(&original, &original),
        Ok(())
    );
    assert_eq!(
        validate_resume_helper_identity(&replacement, &original),
        Err("the resume helper does not match the parent app build")
    );
}

#[test]
fn left_sidebar_policy_allows_sidebar_to_shrink() {
    let policy = sidebar_paned_policy(SidebarPosition::Left, 220);

    assert_eq!(
        policy.divider_position,
        SidebarDividerPosition::FromStart(220)
    );
    assert!(policy.shrink_start_child);
    assert!(!policy.shrink_end_child);
    assert!(!policy.resize_start_child);
    assert!(policy.resize_end_child);
}

#[test]
fn live_config_watch_coalesces_changes_during_an_inflight_reload() {
    let mut state = LiveConfigWatchState::default();
    state.note_change();
    let first = state.begin_reload().expect("first reload should start");
    state.note_change();
    assert_eq!(state.begin_reload(), None, "second reload should queue");
    assert_eq!(state.finish_reload(first), (false, true));

    let latest = state.begin_reload().expect("queued reload should start");
    assert_eq!(state.finish_reload(latest), (true, false));
}

#[test]
fn live_config_watch_cancel_discards_inflight_results_and_future_events() {
    let mut state = LiveConfigWatchState::default();
    state.note_change();
    let generation = state.begin_reload().expect("reload should start");
    state.cancel();

    assert_eq!(state.finish_reload(generation), (false, false));
    state.note_change();
    assert_eq!(state.begin_reload(), None);
}

#[test]
fn live_config_watch_deduplicates_invalid_write_errors_until_success() {
    let mut state = LiveConfigWatchState::default();
    assert!(state.should_report_error());
    assert!(!state.should_report_error());
    assert!(!state.should_report_error());
    state.clear_error();
    assert!(state.should_report_error());
}

#[test]
fn dock_toggle_inverts_runtime_visibility() {
    assert!(toggled_dock_visibility(false));
    assert!(!toggled_dock_visibility(true));
}

#[test]
fn compact_sidebar_policy_preserves_requested_width() {
    let policy = sidebar_paned_policy(SidebarPosition::Left, 64);
    assert_eq!(
        policy.divider_position,
        SidebarDividerPosition::FromStart(64)
    );
}

#[test]
fn right_sidebar_policy_allows_sidebar_to_shrink() {
    let policy = sidebar_paned_policy(SidebarPosition::Right, 220);

    assert_eq!(
        policy.divider_position,
        SidebarDividerPosition::FromEnd(220)
    );
    assert!(!policy.shrink_start_child);
    assert!(policy.shrink_end_child);
    assert!(policy.resize_start_child);
    assert!(!policy.resize_end_child);
}

#[test]
fn appends_wp_presentation_to_gdk_wayland_disable() {
    assert_eq!(
        gdk_wayland_disable_with_presentation(""),
        Some("wp_presentation".to_string())
    );
    assert_eq!(
        gdk_wayland_disable_with_presentation("wl_seat"),
        Some("wl_seat,wp_presentation".to_string())
    );
    assert_eq!(
        gdk_wayland_disable_with_presentation("wp_presentation"),
        None
    );
    assert_eq!(
        gdk_wayland_disable_with_presentation("wl_seat:wp_presentation"),
        None
    );
    assert_eq!(
        gdk_wayland_disable_with_presentation("wl_seat wp_presentation"),
        None
    );
    assert_eq!(
        gdk_wayland_disable_with_presentation("a;wp_presentation\tb"),
        None
    );
    assert_eq!(
        gdk_wayland_disable_with_presentation("my_wp_presentation"),
        Some("my_wp_presentation,wp_presentation".to_string())
    );
}

/// The keys of the quick actions as they are without a configuration.
fn default_chord_map() -> ChordMap<WorkspaceAction> {
    let mut map = ChordMap::new();
    map.insert('d', WorkspaceAction::Dev);
    map.insert('t', WorkspaceAction::Test);
    map.insert('b', WorkspaceAction::Build);
    map.insert('l', WorkspaceAction::Lint);
    map.insert('s', WorkspaceAction::Setup);
    map
}

#[test]
fn maps_chord_keys_to_workspace_actions() {
    let chord_map = default_chord_map();
    assert_eq!(
        workspace_action_from_chord_key(Some('d'), &chord_map),
        Some(WorkspaceAction::Dev)
    );
    assert_eq!(
        workspace_action_from_chord_key(Some('t'), &chord_map),
        Some(WorkspaceAction::Test)
    );
    assert_eq!(
        workspace_action_from_chord_key(Some('b'), &chord_map),
        Some(WorkspaceAction::Build)
    );
    assert_eq!(
        workspace_action_from_chord_key(Some('l'), &chord_map),
        Some(WorkspaceAction::Lint)
    );
    assert_eq!(
        workspace_action_from_chord_key(Some('s'), &chord_map),
        Some(WorkspaceAction::Setup)
    );
}

const NONE: Modifiers = Modifiers {
    shift: false,
    control: false,
    alt: false,
    logo: false,
    hyper: false,
    meta: false,
};

const SHIFT: Modifiers = Modifiers {
    shift: true,
    ..NONE
};

const CONTROL: Modifiers = Modifiers {
    control: true,
    ..NONE
};

const CONTROL_SHIFT: Modifiers = Modifiers {
    shift: true,
    control: true,
    ..NONE
};

fn question() -> (Key, PressedKey) {
    let key = Key {
        value: 0x3f,
        upper: 0x3f,
    };
    (
        key,
        PressedKey {
            key,
            character: Some('?'),
            unshifted: None,
        },
    )
}

#[test]
fn contextual_help_trigger_matches_default_and_custom_modifier() {
    let (key, pressed) = question();
    assert!(help_key_matches(key, NONE, pressed, SHIFT));
    assert!(!help_key_matches(key, CONTROL, pressed, SHIFT));
    assert!(help_key_matches(key, CONTROL, pressed, CONTROL_SHIFT));
    assert!(!help_key_matches(key, NONE, pressed, CONTROL_SHIFT));
    assert!(!help_key_matches(
        key,
        CONTROL,
        pressed,
        Modifiers {
            alt: true,
            ..CONTROL_SHIFT
        }
    ));
    let h = Key {
        value: 0x68,
        upper: 0x48,
    };
    let shifted_h = PressedKey {
        key: Key {
            value: 0x48,
            upper: 0x48,
        },
        character: Some('H'),
        unshifted: None,
    };
    assert!(help_key_matches(h, CONTROL_SHIFT, shifted_h, CONTROL_SHIFT));
}

#[test]
fn letters_count_their_shift() {
    let (key, pressed) = question();
    let letter = PressedKey {
        character: Some('é'),
        ..pressed
    };
    assert!(!help_key_matches(key, NONE, letter, SHIFT));
    assert!(help_key_matches(key, NONE, letter, NONE));
    let slash = PressedKey {
        key: Key {
            value: 0x5f,
            upper: 0x5f,
        },
        character: Some('_'),
        unshifted: Some(0x3f),
    };
    assert!(help_key_matches(key, SHIFT, slash, SHIFT));
    assert!(!help_key_matches(key, NONE, slash, SHIFT));
    assert!(key_matches_as(key, NONE, pressed, SHIFT, true));
    assert!(!key_matches_as(key, NONE, pressed, SHIFT, false));
}

#[test]
fn chord_parser_rejects_unknown_keys() {
    let chord_map = default_chord_map();
    assert_eq!(workspace_action_from_chord_key(Some('x'), &chord_map), None);
    assert_eq!(workspace_action_from_chord_key(None, &chord_map), None);
}

fn saved_workspace(is_worktree: bool) -> SavedWorkspace {
    SavedWorkspace {
        id: 1,
        work_origin: Some("workspace-restore-feature".into()),
        name: "feature".into(),
        collapsed: false,
        repo_root: Some("/repo/main".into()),
        is_worktree,
        working_tree_path: Some("/repo-feature".into()),
        branch_name: Some("main".into()),
        host_config_name: None,
        linked_issue: None,
        tmux_backed: false,
        tabs: Vec::new(),
        active_tab_index: 0,
    }
}

#[test]
fn worktree_restore_prefers_working_tree_path_for_git_refresh() {
    let saved = saved_workspace(true);
    assert_eq!(
        workspace_git_discovery_path(&saved).as_deref(),
        Some("/repo-feature")
    );
}

#[test]
fn restore_prefers_working_tree_path_when_present_even_without_flag() {
    let saved = SavedWorkspace {
        work_origin: Some("workspace-restore-repo".into()),
        name: "repo".into(),
        ..saved_workspace(false)
    };
    assert_eq!(
        workspace_git_discovery_path(&saved).as_deref(),
        Some("/repo-feature")
    );
}

fn workspace(id: u32) -> Workspace {
    Workspace {
        id,
        name: "repo".into(),
        work_origin: format!("workspace-{id}"),
        tabs: Vec::new(),
        active_tab: 0,
        last_active_tab: None,
        repo_root: None,
        working_tree_path: None,
        branch_name: None,
        is_worktree: false,
        host_config_name: None,
        linked_issue: None,
        tmux_backed: false,
        collapsed: false,
    }
}

#[test]
fn apply_git_info_marks_linked_worktrees_on_workspace_state() {
    let git_info = GitInfo {
        repo_root: Some("/repo/main".into()),
        checkout_root: Some("/repo-feature".into()),
        branch: Some("feature/demo".into()),
        is_dirty: false,
        upstream: None,
    };
    let mut workspace = workspace(1);

    apply_git_info_to_workspace(&mut workspace, &git_info);

    assert_eq!(workspace.repo_root.as_deref(), Some("/repo/main"));
    assert_eq!(workspace.branch_name.as_deref(), Some("feature/demo"));
    assert!(workspace.is_worktree);
    assert_eq!(
        workspace.working_tree_path.as_deref(),
        Some("/repo-feature")
    );
}

#[test]
fn workspace_name_from_git_info_prefers_checkout_root() {
    let git_info = GitInfo {
        repo_root: Some("/repo/main".into()),
        checkout_root: Some("/repo-feature".into()),
        branch: Some("feature/demo".into()),
        is_dirty: false,
        upstream: None,
    };

    assert_eq!(
        workspace_name_from_git_info(&git_info),
        Some("repo-feature".into())
    );
}

#[test]
fn async_workspace_header_label_restores_name_and_git_status() {
    let git_info = GitInfo {
        repo_root: Some("/repo".into()),
        checkout_root: Some("/repo".into()),
        branch: Some("feature/async".into()),
        is_dirty: true,
        upstream: Some("origin/feature/async".into()),
    };

    assert_eq!(
        workspace_header_label("Workspace", &git_info),
        "Workspace  feature/async * -> origin/feature/async"
    );
    assert_eq!(
        workspace_header_label("Workspace", &GitInfo::default()),
        "Workspace"
    );
}

#[test]
fn leader_parser_maps_configured_follow_up_keys() {
    let mut leader_map = ChordMap::new();
    leader_map.insert('c', Action::NewTab);
    leader_map.insert('p', Action::CommandPalette);

    assert_eq!(
        leader_action_from_chord_key(Some('c'), &leader_map),
        Some(Action::NewTab)
    );
    assert_eq!(
        leader_action_from_chord_key(Some('p'), &leader_map),
        Some(Action::CommandPalette)
    );
    assert_eq!(leader_action_from_chord_key(Some('x'), &leader_map), None);
}

#[test]
fn terminal_search_regex_flags_enable_caseless_and_multiline() {
    let flags = terminal_search_regex_flags();
    assert_eq!(flags & PCRE2_CASELESS, PCRE2_CASELESS);
    assert_eq!(flags & PCRE2_MULTILINE, PCRE2_MULTILINE);
}

#[test]
fn searches_are_literal() {
    assert_eq!(regex_escape("a.b*(c)"), "a\\.b\\*\\(c\\)");
    assert_eq!(regex_escape("\\[x]{1}^$|?+"), "\\\\\\[x\\]\\{1\\}\\^\\$\\|\\?\\+");
    assert_eq!(regex_escape("plain é"), "plain é");
    assert!(matches!(search_for(""), SearchChange::Clear));
    assert!(matches!(
        search_for("a.b"),
        SearchChange::Search { pattern, flags: 0x408 } if pattern == "a\\.b"
    ));
    assert_eq!(search_key(SearchKey::Escape), SearchKeyEffect::Close);
    assert_eq!(
        search_key(SearchKey::Enter { shift: true }),
        SearchKeyEffect::FindPrevious
    );
    assert_eq!(
        search_key(SearchKey::Enter { shift: false }),
        SearchKeyEffect::FindNext
    );
    assert_eq!(search_key(SearchKey::Other), SearchKeyEffect::Pass);
}

fn info(action: WorkspaceAction, task: &str, compact: &str) -> WorkspaceActionInfo {
    WorkspaceActionInfo {
        action,
        task_name: task.into(),
        label: format!("{compact} label"),
        compact_label: compact.into(),
    }
}

#[test]
fn hints_show_the_keys_in_order() {
    let mut map = default_chord_map();
    map.insert('a', WorkspaceAction::Lint);
    map.insert('d', WorkspaceAction::Build);
    let keys: String = map.entries.iter().map(|(key, _)| *key).collect();
    assert_eq!(keys, "abdlst");
    let actions = vec![
        info(WorkspaceAction::Lint, "lint", "Lint"),
        info(WorkspaceAction::Dev, "dev", "Dev"),
        info(WorkspaceAction::Build, "build", "Build"),
    ];
    let hints = quick_action_overlay_entries(&actions, &map);
    let shown: Vec<String> = hints.iter().map(hint_text).collect();
    assert_eq!(shown, vec!["[A]Lint", "[B]Build"]);
    assert_eq!(
        hints[1].target,
        ChordTarget::Workspace(WorkspaceAction::Build)
    );

    let mut leader = ChordMap::new();
    leader.insert('p', Action::CommandPalette);
    leader.insert('1', Action::NewTab);
    let hints = leader_overlay_entries(&leader, &texts(&["New Tab", "Command Palette"]));
    let shown: Vec<String> = hints.iter().map(hint_text).collect();
    assert_eq!(shown, vec!["[1]New Tab", "[P]Command Palette"]);
    assert_eq!(overlay_key_label('é'), "é");
    assert_eq!(overlay_key_label('Q'), "Q");
}

#[test]
fn chord_keys_end_or_keep_the_overlay() {
    let quick = default_chord_map();
    let mut leader = ChordMap::new();
    leader.insert('c', Action::NewTab);
    let press = |mode: Option<ChordMode>, visible: bool, key: ChordKey| {
        follow_chord_key(mode, visible, key, &quick, &leader)
    };
    let key = |c: char| ChordKey::Other(Some(c));
    assert_eq!(press(None, true, key('c')), ChordKeyEffect::Pass);
    assert_eq!(
        press(Some(ChordMode::Leader), false, key('c')),
        ChordKeyEffect::Pass
    );
    assert_eq!(
        press(Some(ChordMode::Leader), true, ChordKey::Escape),
        ChordKeyEffect::Dismiss
    );
    assert_eq!(
        press(Some(ChordMode::Leader), true, key('c')),
        ChordKeyEffect::Activate(Action::NewTab)
    );
    assert_eq!(
        press(Some(ChordMode::Leader), true, key('x')),
        ChordKeyEffect::Dismiss
    );
    assert_eq!(
        press(Some(ChordMode::QuickAction), true, key('d')),
        ChordKeyEffect::RunWorkspaceAction(WorkspaceAction::Dev)
    );
    assert_eq!(
        press(Some(ChordMode::QuickAction), true, ChordKey::Other(None)),
        ChordKeyEffect::Swallow
    );
}

#[test]
fn reloads_install_or_report_once() {
    let mut watch = LiveConfigWatchState::new();
    let findings = vec![
        Finding {
            severity: Severity::Warning,
            message: "odd".into(),
        },
        Finding {
            severity: Severity::Error,
            message: "bad key".into(),
        },
    ];
    assert_eq!(config_error_message(&findings), "bad key");
    assert_eq!(
        config_error_message(&Vec::new()),
        "configuration validation failed"
    );
    let invalid = ReloadResult::Invalid(findings);
    let generation = watch.begin_reload().expect("a reload");
    assert!(matches!(
        finish_live_config_reload(&mut watch, generation, &invalid),
        (ReloadEffect::ShowError { message }, false)
            if message == "Configuration not reloaded: bad key"
    ));
    let generation = watch.begin_reload().expect("a reload");
    assert!(matches!(
        finish_live_config_reload(&mut watch, generation, &ReloadResult::WorkerFailed),
        (ReloadEffect::Nothing, false)
    ));
    let generation = watch.begin_reload().expect("a reload");
    assert!(matches!(
        finish_live_config_reload(&mut watch, generation, &ReloadResult::Valid),
        (ReloadEffect::Install, false)
    ));
    let generation = watch.begin_reload().expect("a reload");
    watch.note_change();
    assert_eq!(watch.begin_reload(), None);
    assert!(matches!(
        finish_live_config_reload(&mut watch, generation, &ReloadResult::WorkerFailed),
        (ReloadEffect::Nothing, true)
    ));
    let generation = watch.begin_reload().expect("a reload");
    assert!(matches!(
        finish_live_config_reload(&mut watch, generation, &ReloadResult::WorkerFailed),
        (ReloadEffect::ShowError { message }, false)
            if message == "Configuration not reloaded: configuration worker failed"
    ));
}

#[test]
fn the_legend_is_shown_once_per_tab() {
    let mut legend = RestoreLegend {
        pending: vec![3, 4],
        last_active_tab: None,
        rendered_tab: None,
        generation: 0,
        visible: false,
    };
    let (tab_id, generation) = legend.refresh(Some(3)).expect("shown");
    assert_eq!(tab_id, 3);
    assert!(legend.visible);
    assert_eq!(legend.refresh(Some(3)), None);
    legend.expire(3, generation.wrapping_add(9));
    assert!(legend.visible);
    assert!(legend.refresh(Some(4)).is_some());
    assert_eq!(legend.pending, vec![4]);
    assert_eq!(legend.refresh(Some(3)), None);
    assert!(!legend.visible);
    assert!(legend.pending.is_empty());

    legend.pending = vec![5];
    let (tab_id, generation) = legend.refresh(Some(5)).expect("shown");
    legend.expire(tab_id, generation);
    assert!(!legend.visible);
    assert!(!legend.dismiss_active());
    legend.pending = vec![5];
    legend.refresh(Some(5));
    assert!(!legend.dismiss_tab(6));
    assert!(legend.dismiss_tab(5));
}

#[test]
fn the_divider_leaves_room_for_the_sidebar() {
    assert_eq!(
        divider_offset(SidebarDividerPosition::FromStart(220), 100),
        Some(220)
    );
    assert_eq!(
        divider_offset(SidebarDividerPosition::FromEnd(220), 1000),
        Some(780)
    );
    assert_eq!(
        divider_offset(SidebarDividerPosition::FromEnd(220), 220),
        None
    );
    assert_eq!(
        sidebar_paned_policy(SidebarPosition::Right, -5).divider_position,
        SidebarDividerPosition::FromEnd(1)
    );
    assert_eq!(
        broadcast_indicator_text(&Some("tab".into()), 1).as_deref(),
        Some("Broadcast input: tab • 1 pane")
    );
    assert_eq!(
        broadcast_indicator_text(&Some("workspace".into()), 12).as_deref(),
        Some("Broadcast input: workspace • 12 panes")
    );
    assert_eq!(broadcast_indicator_text(&None, 3), None);
}

#[test]
fn projects_on_hosts_are_registered_once_the_host_names_them() {
    let mut registration = ProjectRegistration { in_flight: false };
    let unknown = register_focused_project(&mut registration, &Err("no pane".into()));
    assert!(matches!(
        unknown,
        RegistrationStep::Tell { notice }
            if notice.is_error && notice.message == "Could not register project: no pane"
    ));
    assert!(!registration.in_flight);

    let source = Ok(FocusedProjectSource::Remote {
        cwd: "/srv/site".into(),
        host_name: "alpha".into(),
        ssh_target: "me@alpha".into(),
        ssh_argv: Some(texts(&["ssh", "alpha"])),
        preferred_open: "shell".into(),
    });
    assert_eq!(
        register_focused_project(&mut registration, &source),
        RegistrationStep::AskHost {
            ssh_argv: Some(texts(&["ssh", "alpha"])),
            host_name: "alpha".into(),
            cwd: "/srv/site".into(),
        }
    );
    assert!(registration.in_flight);
    assert!(matches!(
        register_focused_project(&mut registration, &source),
        RegistrationStep::Tell { notice }
            if !notice.is_error && notice.message == "Project registration is already in progress"
    ));
    assert!(registration.in_flight);
    let source = source.expect("a source");
    let named = RemoteGitIdentityOutcome::GitHub("org/site".into());
    assert_eq!(
        continue_registration(
            &mut registration,
            &source,
            &RegistrationEvent::HostAnswered(Some(named.clone()))
        ),
        RegistrationStep::RegisterRemote {
            host_name: "alpha".into(),
            ssh_target: "me@alpha".into(),
            ssh_argv: Some(texts(&["ssh", "alpha"])),
            identity: "org/site".into(),
            preferred_open: "shell".into(),
        }
    );
    assert!(registration.in_flight);

    let local = FocusedProjectSource::Local {
        cwd: "/srv".into(),
        preferred_open: "shell".into(),
    };
    let unavailable = "Could not register project: remote Git identity is unavailable";
    let endings = [
        (&source, RegistrationEvent::HostAnswered(None), unavailable),
        (
            &source,
            RegistrationEvent::HostAnswered(Some(RemoteGitIdentityOutcome::Unavailable)),
            unavailable,
        ),
        (&local, RegistrationEvent::HostAnswered(Some(named)), unavailable),
        (
            &source,
            RegistrationEvent::RemoteRegistered(None),
            "Could not register project: remote project registration failed",
        ),
        (
            &source,
            RegistrationEvent::RemoteRegistered(Some(Ok("Site".into()))),
            "Registered project Site",
        ),
        (
            &local,
            RegistrationEvent::LocalRegistered(None),
            "Could not register project: local Git discovery failed",
        ),
        (
            &local,
            RegistrationEvent::LocalRegistered(Some(Err("no git".into()))),
            "Could not register project: no git",
        ),
    ];
    for (source, event, expected) in endings {
        registration.in_flight = true;
        match continue_registration(&mut registration, source, &event) {
            RegistrationStep::Tell { notice } => assert_eq!(notice.message, expected),
            other => panic!("{other:?}"),
        }
        assert!(!registration.in_flight);
    }
    assert_eq!(
        register_focused_project(&mut registration, &Ok(local)),
        RegistrationStep::RegisterLocal {
            cwd: "/srv".into(),
            preferred_open: "shell".into(),
        }
    );
}

#[test]
fn registrations_and_cleanups_happen_once() {
    let mut registration = ProjectRegistration { in_flight: false };
    assert!(registration.begin());
    assert!(!registration.begin());
    registration.end();
    assert!(registration.begin());
    let notice = finish_project_registration(&Ok("Site".into()));
    assert_eq!(notice.message, "Registered project Site");
    let notice = finish_project_registration(&Err("no git".into()));
    assert_eq!(notice.message, "Could not register project: no git");
    assert!(notice.is_error);
    let mut cleaned = false;
    assert!(cleanup_socket_once(&mut cleaned, true));
    assert!(!cleanup_socket_once(&mut cleaned, true));
    assert_eq!(toast_timeout(true), 3);
    assert_eq!(toast_timeout(false), 6);
}

#[test]
fn the_window_has_exactly_the_bindable_actions() {
    let names = texts(&["new-tab", "copy"]);
    assert_eq!(validate_window_action_contract(&names, &names), Ok(()));
    assert_eq!(
        validate_window_action_contract(&texts(&["new-tab", "stray"]), &names),
        Err(ActionContractBreach::Unexpected(texts(&["stray"])))
    );
    assert_eq!(
        validate_window_action_contract(&texts(&["copy"]), &names),
        Err(ActionContractBreach::Missing(texts(&["new-tab"])))
    );
}

#[test]
fn notifications_name_a_pane() {
    assert_eq!(parse_focus_target("12:345"), Some((12, 345)));
    assert_eq!(parse_focus_target("12"), None);
    assert_eq!(parse_focus_target("12:"), None);
    assert_eq!(parse_focus_target(":1"), None);
    assert_eq!(parse_focus_target("1:2:3"), None);
    for text in [
        "", "+", "+7", "-1", "007", "4294967295", "4294967296", "99999999999999999999", "1a", " 1",
    ] {
        assert_eq!(parse_u32(text), text.parse::<u32>().ok());
    }
}

fn window() -> WindowSnapshot {
    WindowSnapshot {
        tmux: TmuxUiState {
            available: true,
            unavailable_message: None,
        },
        search_visible: false,
        palette_visible: false,
        inspector_visible: false,
        history_visible: true,
        dock_visible: false,
        sidebar_compact: false,
        has_leader_keys: false,
        attention: None,
    }
}

fn tab(id: u32) -> Tab {
    Tab {
        id,
        name: "Shell".into(),
        work_origin: format!("tab-{id}"),
        kind: TabKind::Terminal,
        panes: Box::new(PaneNode::Stub { pane_id: 7 }),
        focused_pane_id: 7,
        next_pane_id: 8,
        needs_attention: false,
        notification_msg: None,
        discovery_cwd: None,
        discovered_actions: Vec::new(),
    }
}

#[test]
fn actions_apply_to_what_is_there() {
    let mut state = AppState::new("w".to_string());
    let mut shown = window();
    assert!(matches!(
        window_command(Action::NewTab, &state, &shown),
        WindowCommand::OpenTab { workspace_id: 1 }
    ));
    assert!(matches!(
        window_command(Action::ClosePane, &state, &shown),
        WindowCommand::Nothing
    ));
    assert!(matches!(
        window_command(Action::SplitVertical, &state, &shown),
        WindowCommand::SplitPane {
            direction: SplitDirection::Vertical,
            check_tab: None
        }
    ));
    state.workspaces[0].tabs.push(tab(3));
    state.workspaces[0].active_tab = 3;
    assert!(matches!(
        window_command(Action::ClosePane, &state, &shown),
        WindowCommand::ClosePane {
            tab_id: 3,
            pane_id: 7
        }
    ));
    assert!(matches!(
        window_command(Action::SplitHorizontal, &state, &shown),
        WindowCommand::SplitPane {
            direction: SplitDirection::Horizontal,
            check_tab: Some(3)
        }
    ));
    assert!(matches!(
        window_command(Action::DiscoverTab, &state, &shown),
        WindowCommand::DiscoverTasks { tab_id: 3 }
    ));
    assert!(matches!(
        window_command(Action::SearchToggle, &state, &shown),
        WindowCommand::ShowSearch
    ));
    shown.search_visible = true;
    assert!(matches!(
        window_command(Action::SearchToggle, &state, &shown),
        WindowCommand::FindNext
    ));
    assert!(matches!(
        window_command(Action::CommandPalette, &state, &shown),
        WindowCommand::OpenPalette
    ));
    shown.palette_visible = true;
    assert!(matches!(
        window_command(Action::CommandPalette, &state, &shown),
        WindowCommand::ClosePalette
    ));
    assert!(matches!(
        window_command(Action::HistoryView, &state, &shown),
        WindowCommand::SetHistoryVisible(false)
    ));
    assert!(matches!(
        window_command(Action::LeaderMode, &state, &shown),
        WindowCommand::LeaderNotConfigured
    ));
    assert!(matches!(
        window_command(Action::JumpAttention, &state, &shown),
        WindowCommand::Nothing
    ));
    shown.attention = Some((3, 7));
    assert!(matches!(
        window_command(Action::JumpAttention, &state, &shown),
        WindowCommand::FocusAttention {
            tab_id: 3,
            pane_id: 7
        }
    ));
    shown.tmux.unavailable_message = Some("no tmux".into());
    assert!(matches!(
        window_command(Action::NewTmuxTab, &state, &shown),
        WindowCommand::TmuxUnavailable(message) if message == "no tmux"
    ));
    assert!(matches!(
        window_command(Action::BroadcastWorkspace, &state, &shown),
        WindowCommand::SetBroadcast(Some(BroadcastScope::Workspace))
    ));
    assert!(matches!(
        window_command(Action::FocusPaneUp, &state, &shown),
        WindowCommand::FocusPane(PaneNavigationDirection::Up)
    ));
    assert!(matches!(
        window_command(Action::PrevWorkspace, &state, &shown),
        WindowCommand::StepWorkspace(-1)
    ));
    assert_eq!(new_workspace_name(&state), "Workspace 2");
    let dev = info(WorkspaceAction::Dev, "dev", "Dev");
    let request = workspace_chord_task_launch_request(&state, None, &dev);
    assert_eq!(request.surface, TaskLaunchSurface::BindableAction);
    assert_eq!(request.source_tab_id, 3);
    assert_eq!(request.task_name, "dev");
    state.workspaces[0].active_tab = 0;
    let request = workspace_chord_task_launch_request(&state, None, &dev);
    assert_eq!(request.source_tab_id, 0);
}

fn saved_tab(discovered: bool) -> SavedTab {
    SavedTab {
        name: "Shell".into(),
        work_origin: Some("tab-saved".into()),
        cwd: None,
        panes: Some("{}".into()),
        discovery_cwd: if discovered { Some("/srv".into()) } else { None },
    }
}

#[test]
fn one_tab_of_a_session_is_opened_at_once() {
    let mut first = saved_workspace(false);
    first.tabs = vec![saved_tab(false), saved_tab(false)];
    first.active_tab_index = 1;
    let mut second = saved_workspace(false);
    second.working_tree_path = None;
    second.tabs = vec![saved_tab(false), saved_tab(true)];
    second.active_tab_index = 9;
    second.collapsed = true;
    let session = SavedSession {
        workspaces: vec![first, second, saved_workspace(true)],
        active_workspace_index: 1,
        background_section_collapsed: Some(false),
    };
    let plan = plan_session_restore(&session).expect("a plan");
    assert_eq!(plan[0].eager_tab, None);
    assert_eq!(plan[0].active_tab, Some(1));
    assert!(!plan[0].active);
    assert_eq!(plan[0].git_path.as_deref(), Some("/repo-feature"));
    assert_eq!(plan[1].eager_tab, Some(1));
    assert!(plan[1].discover_tasks);
    assert!(plan[1].active);
    assert!(plan[1].collapsed);
    assert_eq!(plan[1].git_path.as_deref(), Some("/repo/main"));
    assert_eq!(plan[2].active_tab, None);
    assert!(plan[2].tabs.is_empty());
    assert!(plan[0].tabs.iter().all(|tab| !tab.at_once));
    assert_eq!(
        plan[1].tabs[1],
        TabRestore {
            name: "Shell".into(),
            panes: Some("{}".into()),
            cwd: None,
            at_once: true,
        }
    );
    assert!(!plan[1].tabs[0].at_once);
    let far = SavedSession {
        active_workspace_index: 7,
        ..session
    };
    let plan = plan_session_restore(&far).expect("a plan");
    assert!(plan[2].active);
    assert_eq!(
        plan_session_restore(&SavedSession {
            workspaces: Vec::new(),
            active_workspace_index: 0,
            background_section_collapsed: None,
        }),
        None
    );
    let mut restored = workspace(5);
    let saved = SavedWorkspace {
        linked_issue: Some("EXAMPLE-1".into()),
        tmux_backed: true,
        ..saved_workspace(true)
    };
    apply_saved_workspace(&mut restored, &saved);
    assert_eq!(restored.work_origin, "workspace-restore-feature");
    assert_eq!(restored.id, 5);
    apply_saved_workspace(&mut restored, &SavedWorkspace { work_origin: None, ..saved });
    assert_eq!(restored.work_origin, "workspace-restore-feature");
    restored.tabs.push(tab(6));
    let tab = &mut restored.tabs[0];
    apply_saved_tab(tab, &saved_tab(true), Some("/srv".into()));
    assert_eq!(tab.work_origin, "tab-saved");
    assert_eq!(tab.discovery_cwd.as_deref(), Some("/srv"));
    let unnamed = SavedTab { work_origin: None, ..saved_tab(false) };
    apply_saved_tab(tab, &unnamed, None);
    assert_eq!(tab.work_origin, "tab-saved");
    assert_eq!(tab.discovery_cwd, None);
    assert!(restored.is_worktree);
    assert_eq!(restored.branch_name.as_deref(), Some("main"));
    assert_eq!(restored.name, "repo");
    assert_eq!(restored.linked_issue.as_deref(), Some("EXAMPLE-1"));
    assert!(restored.tmux_backed);
    assert!(background_starts_collapsed(&None));
    assert!(!background_starts_collapsed(&Some(far)));
    assert_eq!(startup_message(&None, false), None);
    assert_eq!(
        startup_message(&Some("recovered".into()), true).as_deref(),
        Some("recovered")
    );
    assert!(startup_message(&None, true)
        .expect("a message")
        .starts_with("Reopened layout."));
}

fn seed() -> HeadlessPaneSeed {
    HeadlessPaneSeed {
        cwd: Some("/srv".into()),
        cwd_host: None,
        shell_running: true,
        has_child_process: false,
        remote_shell: false,
        ssh_command: None,
        tmux_session: Some("work".into()),
        tmux_ssh_target: Some("alpha".into()),
    }
}

#[test]
fn headless_tabs_are_seeded_in_their_workspace() {
    let mut state = AppState::new("w".to_string());
    let first = seed_headless_terminal_tab_at(
        &mut state,
        1,
        "Shell",
        seed(),
        77,
        "pane-1".to_string(),
        "tab-1".to_string(),
    );
    assert_eq!(first, Some((2, 3)));
    assert_eq!(state.workspaces[0].active_tab, 2);
    assert_eq!(state.workspaces[0].last_active_tab, None);
    let pane = &state.headless_panes[&key_of_pane(2, 3)];
    assert_eq!(pane.location_state.updated_at_unix_ms, Some(77));
    assert_eq!(
        pane.tmux_backing.as_ref().expect("a session").target,
        TmuxTarget::Remote {
            ssh_target: "alpha".into()
        }
    );
    let second = seed_headless_terminal_tab(
        &mut state,
        1,
        "Shell",
        seed(),
        "pane-2".to_string(),
        "tab-2".to_string(),
    );
    assert_eq!(second, Some((4, 5)));
    assert_eq!(state.workspaces[0].last_active_tab, Some(2));
    let missing = seed_headless_terminal_tab(
        &mut state,
        9,
        "Shell",
        seed(),
        "pane-3".to_string(),
        "tab-3".to_string(),
    );
    assert_eq!(missing, None);
    assert_eq!(state.next_id, 8);
    let pending = seed_pending_restore_tab(
        &mut state,
        1,
        "Later",
        "{}".to_string(),
        Some("/srv".into()),
        "tab-4".to_string(),
    );
    assert_eq!(pending, Some(8));
    assert!(matches!(*state.workspaces[0].tabs[2].panes, PaneNode::Empty));
    assert!(!state.pending_tab_restores[&8].show_restore_legend);
    assert_eq!(state.workspaces[0].active_tab, 8);
}

#[test]
fn resuming_reads_its_arguments() {
    assert!(wants_build_info(&texts(&["--build-info"])));
    assert!(!wants_build_info(&texts(&["--build-info", "x"])));
    assert!(!wants_build_info(&[]));
    assert!(matches!(resume_request(&[]), ResumeRequest::NotAsked));
    assert!(matches!(
        resume_request(&texts(&["--resume-saved-agent"])),
        ResumeRequest::Refused { message } if message == "exact provider session identity is missing"
    ));
    assert!(matches!(
        resume_request(&texts(&["--resume-saved-agent", "{}"])),
        ResumeRequest::Handoff { text } if text == "{}"
    ));
    let handoff = SavedAgentResumeHandoff {
        provider_id: "p".into(),
        host_identity: "h".into(),
        session_id: "s1".into(),
        expected_app_build: build("r", false, "b"),
    };
    assert_eq!(check_resume_handoff(Some(handoff.clone())), Ok(handoff.clone()));
    let unnamed = [
        SavedAgentResumeHandoff { provider_id: String::new(), ..handoff.clone() },
        SavedAgentResumeHandoff { host_identity: String::new(), ..handoff.clone() },
        SavedAgentResumeHandoff { session_id: String::new(), ..handoff },
    ];
    for incomplete in unnamed {
        assert_eq!(
            check_resume_handoff(Some(incomplete)),
            Err("exact provider session identity is incomplete")
        );
    }
    assert_eq!(
        check_resume_handoff(None),
        Err("exact provider session identity is malformed")
    );
    assert_eq!(
        resume_unavailable("x"),
        "taarof: Resume agent conversation unavailable: x"
    );
    let places = agent_launcher_candidates(
        &Some("/opt/bin/agent".into()),
        &Some("/opt/bin/taarof".into()),
        &Some("/usr/bin/taarof".into()),
    );
    assert_eq!(places, texts(&["/opt/bin/agent", "/usr/bin/agent"]));
    assert_eq!(
        choose_agent_launcher(&places, &vec![false, true]),
        Ok("/usr/bin/agent".to_string())
    );
    assert_eq!(
        choose_agent_launcher(&texts(&["agent"]), &vec![true]),
        Err("the channel-matched agent launcher is missing")
    );
}

#[test]
fn actions_have_names() {
    let actions = Action::of_window();
    assert_eq!(actions.len(), 43);
    assert!(!actions.contains(&Action::Copy));
    let mut names: Vec<&str> = actions.iter().map(|action| action.name()).collect();
    assert!(names.iter().all(|name| !name.starts_with("run-")));
    assert_eq!(Action::Paste.name(), "paste-active-input");
    assert_eq!(Action::FocusPaneLeft.name(), "focus-pane-left");
    names.sort_unstable();
    names.dedup();
    assert_eq!(names.len(), 43);
}

#[test]
fn worktree_listings_name_paths_and_branches() {
    let listing = "worktree /repo\nHEAD abc\nbranch refs/heads/main\n\nworktree /repo-x\nHEAD def\ndetached\n\nworktree /repo-y\nbranch refs/heads/feature/y\n";
    let found = parse_worktree_list(listing);
    let shown: Vec<(&str, Option<&str>)> = found
        .iter()
        .map(|info| (info.path.as_str(), info.branch.as_deref()))
        .collect();
    assert_eq!(
        shown,
        vec![
            ("/repo", Some("main")),
            ("/repo-x", None),
            ("/repo-y", Some("feature/y")),
        ]
    );
    assert!(parse_worktree_list("branch refs/heads/main\n").is_empty());
}
