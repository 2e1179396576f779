use taarof_app::navigation::MoveTabError;
use taarof_app::pane::PaneNode;
use taarof_app::workspace::{AppState, BroadcastScope, ChordMode, Tab, TabKind};

fn new_state() -> AppState {
    AppState::new("workspace-1".to_string())
}

fn create_workspace(state: &mut AppState, name: &str) -> u32 {
    state.create_workspace(name, None, format!("origin-{name}"))
}

/// A tab without a terminal.
fn dummy_tab(state: &mut AppState, name: &str) -> Tab {
    let id = state.next_id;
    state.next_id += 1;
    let pane_id = state.next_id;
    state.next_id += 1;
    Tab {
        id,
        name: name.to_string(),
        work_origin: format!("tab-{id}"),
        kind: TabKind::Terminal,
        panes: Box::new(PaneNode::Stub { pane_id }),
        focused_pane_id: pane_id,
        next_pane_id: pane_id + 1,
        needs_attention: false,
        notification_msg: None,
        discovery_cwd: None,
        discovered_actions: Vec::new(),
    }
}

fn add_tab_to_workspace(state: &mut AppState, ws_id: u32, name: &str) -> u32 {
    let tab = dummy_tab(state, name);
    let tab_id = tab.id;
    let workspace = state
        .workspaces
        .iter_mut()
        .find(|ws| ws.id == ws_id)
        .expect("workspace should exist");
    workspace.tabs.push(tab);
    if workspace.active_tab == 0 {
        workspace.active_tab = tab_id;
    }
    tab_id
}

#[test]
fn chord_timeout_resets_active_state() {
    let mut state = new_state();
    let generation = state.activate_chord(ChordMode::Leader);
    assert_eq!(state.chord_mode(), Some(ChordMode::Leader));
    assert!(state.chord_active());
    assert!(state.expire_chord(generation));
    assert!(!state.chord_active());
    assert_eq!(state.chord_mode(), None);
}

#[test]
fn a_later_chord_outlives_the_earlier_ones_time() {
    let mut state = new_state();
    let first = state.activate_chord(ChordMode::Leader);
    let second = state.activate_chord(ChordMode::QuickAction);
    assert!(!state.expire_chord(first));
    assert_eq!(state.chord_mode(), Some(ChordMode::QuickAction));
    state.dismiss_chord();
    assert!(!state.chord_active());
    assert!(!state.expire_chord(second));
}

#[test]
fn broadcast_shortcut_toggles_tab_mode_on_and_off() {
    let mut state = new_state();
    assert_eq!(state.broadcast_scope(), None);
    assert_eq!(
        state.toggle_broadcast_shortcut_scope(),
        Some(BroadcastScope::Tab)
    );
    assert_eq!(state.broadcast_scope(), Some(BroadcastScope::Tab));
    assert_eq!(state.toggle_broadcast_shortcut_scope(), None);
    assert_eq!(state.broadcast_scope(), None);
    state.set_broadcast_scope(Some(BroadcastScope::Workspace));
    assert_eq!(state.broadcast_scope(), Some(BroadcastScope::Workspace));
    assert_eq!(state.toggle_broadcast_shortcut_scope(), None);
}

#[test]
fn background_section_starts_collapsed() {
    let state = new_state();
    assert!(state.background_section_collapsed);
}

#[test]
fn previous_tab_toggles_within_workspace() {
    let mut state = new_state();
    let ws_id = state.workspaces[0].id;
    let tab1 = add_tab_to_workspace(&mut state, ws_id, "Shell 1");
    let tab2 = add_tab_to_workspace(&mut state, ws_id, "Shell 2");
    state.workspaces[0].active_tab = tab1;
    state.reset_navigation_history();

    assert_eq!(state.activate_tab(tab2), Some(ws_id));
    let workspace = state.workspaces.iter().find(|ws| ws.id == ws_id).unwrap();
    assert_eq!(workspace.active_tab, tab2);
    assert_eq!(workspace.last_active_tab, Some(tab1));

    assert_eq!(state.activate_previous_tab(), Some(tab1));
    let workspace = state.workspaces.iter().find(|ws| ws.id == ws_id).unwrap();
    assert_eq!(workspace.active_tab, tab1);
    assert_eq!(workspace.last_active_tab, Some(tab2));
}

#[test]
fn create_dashboard_tab_reuses_existing_dashboard_in_workspace() {
    let mut state = new_state();
    let ws_id = state.workspaces[0].id;
    let shell_tab = add_tab_to_workspace(&mut state, ws_id, "Shell 1");
    state.workspaces[0].active_tab = shell_tab;

    let dashboard_tab = state
        .create_dashboard_tab("tab-d".to_string())
        .expect("dashboard tab");
    assert_eq!(state.workspaces[0].active_tab, shell_tab);
    assert_eq!(state.presented_tab_id(), Some(dashboard_tab));
    assert_eq!(state.workspaces[0].last_active_tab, None);
    assert_eq!(
        state.activate_tab(dashboard_tab),
        None,
        "presentation-only tabs cannot become pane-command targets"
    );
    assert_eq!(
        state.workspaces[0]
            .tabs
            .iter()
            .filter(|tab| tab.kind == TabKind::Dashboard)
            .count(),
        1
    );

    let second_attempt = state.create_dashboard_tab("tab-e".to_string());
    assert_eq!(second_attempt, None);
    assert_eq!(state.workspaces[0].active_tab, shell_tab);
    assert_eq!(state.presented_tab_id(), Some(dashboard_tab));
    assert_eq!(state.workspaces[0].last_active_tab, None);
    assert_eq!(
        state.workspaces[0]
            .tabs
            .iter()
            .filter(|tab| tab.kind == TabKind::Dashboard)
            .count(),
        1
    );
    assert_eq!(state.activate_tab(shell_tab), Some(ws_id));
    assert_eq!(state.presented_tab_id(), Some(shell_tab));
}

#[test]
fn previous_workspace_toggles_between_workspaces() {
    let mut state = new_state();
    let ws_a = state.workspaces[0].id;
    let _tab_a = add_tab_to_workspace(&mut state, ws_a, "Shell 1");
    let ws_b = create_workspace(&mut state, "target");
    let _tab_b = add_tab_to_workspace(&mut state, ws_b, "Shell 2");
    state.reset_navigation_history();

    assert_eq!(state.activate_workspace(ws_a), Some(ws_a));
    assert_eq!(state.activate_workspace(ws_b), Some(ws_b));
    assert_eq!(state.activate_previous_workspace(), Some(ws_a));
    assert_eq!(state.active_workspace, ws_a);
    assert_eq!(state.activate_previous_workspace(), Some(ws_b));
    assert_eq!(state.active_workspace, ws_b);
}

#[test]
fn workspace_relative_navigation_wraps_and_keeps_order() {
    let mut state = new_state();
    let ws_a = state.workspaces[0].id;
    let ws_b = create_workspace(&mut state, "two");
    let ws_c = create_workspace(&mut state, "three");
    state.reset_navigation_history();

    assert_eq!(state.activate_workspace(ws_a), Some(ws_a));
    assert_eq!(state.activate_workspace_relative(-1), Some(ws_c));
    assert_eq!(state.active_workspace, ws_c);
    assert_eq!(state.activate_workspace_relative(1), Some(ws_a));
    assert_eq!(state.active_workspace, ws_a);
    assert_eq!(
        state.workspaces.iter().map(|ws| ws.id).collect::<Vec<_>>(),
        vec![ws_a, ws_b, ws_c]
    );
    assert_eq!(state.activate_workspace_relative(-4), Some(ws_c));
    assert_eq!(state.activate_workspace_relative(i32::MIN), Some(ws_a));
    assert_eq!(state.activate_workspace_relative(-3), Some(ws_a));
}

#[test]
fn nothing_is_activated_that_is_not_there() {
    let mut state = new_state();
    let ws = state.workspaces[0].id;
    assert_eq!(state.activate_tab(77), None);
    assert_eq!(state.activate_workspace(77), None);
    assert_eq!(state.activate_previous_tab(), None);
    assert_eq!(state.activate_previous_workspace(), None);
    assert_eq!(state.active_workspace, ws);
    state.active_workspace = 77;
    assert_eq!(state.activate_workspace_relative(1), None);
    assert_eq!(state.create_dashboard_tab("d".to_string()), None);
    assert_eq!(state.presented_tab_id(), None);
}

#[test]
fn move_tab_updates_workspace_history_safely() {
    let mut state = new_state();
    let ws_a = state.workspaces[0].id;
    let tab1 = add_tab_to_workspace(&mut state, ws_a, "Shell 1");
    let tab2 = add_tab_to_workspace(&mut state, ws_a, "Shell 2");
    state.workspaces[0].active_tab = tab2;
    state.workspaces[0].last_active_tab = Some(tab1);

    let ws_b = create_workspace(&mut state, "target");
    let tab3 = add_tab_to_workspace(&mut state, ws_b, "Shell 3");
    let target = state
        .workspaces
        .iter_mut()
        .find(|ws| ws.id == ws_b)
        .unwrap();
    target.active_tab = tab3;
    target.last_active_tab = None;
    state.reset_navigation_history();
    state.active_workspace = ws_a;

    assert!(state.move_tab_to_workspace(tab1, ws_b).is_ok());

    let source = state.workspaces.iter().find(|ws| ws.id == ws_a).unwrap();
    assert_eq!(source.last_active_tab, None);
    let target = state.workspaces.iter().find(|ws| ws.id == ws_b).unwrap();
    assert_eq!(target.active_tab, tab1);
    assert_eq!(target.last_active_tab, Some(tab3));
    assert_eq!(state.active_workspace, ws_b);
    assert_eq!(state.last_active_workspace, Some(ws_a));
}

#[test]
fn move_tab_to_different_workspace() {
    let mut state = new_state();
    let ws_a = state.workspaces[0].id;
    let ws_b = create_workspace(&mut state, "target");

    let tab = dummy_tab(&mut state, "Shell 1");
    let tab_id = tab.id;
    state.workspaces[0].tabs.push(tab);
    state.workspaces[0].active_tab = tab_id;

    assert!(state.move_tab_to_workspace(tab_id, ws_b).is_ok());

    assert!(state
        .workspaces
        .iter()
        .find(|ws| ws.id == ws_a)
        .unwrap()
        .tabs
        .is_empty());
    assert_eq!(
        state
            .workspaces
            .iter()
            .find(|ws| ws.id == ws_b)
            .unwrap()
            .tabs
            .len(),
        1
    );
    assert_eq!(
        state
            .workspaces
            .iter()
            .find(|ws| ws.id == ws_b)
            .unwrap()
            .active_tab,
        tab_id
    );
    assert_eq!(state.active_workspace, ws_b);
    assert!(state.workspaces.iter().any(|ws| ws.id == ws_a));
}

#[test]
fn move_tab_fixes_source_active_tab() {
    let mut state = new_state();
    let ws_a = state.workspaces[0].id;
    let ws_b = create_workspace(&mut state, "target");

    let tab1 = dummy_tab(&mut state, "Shell 1");
    let tab1_id = tab1.id;
    let tab2 = dummy_tab(&mut state, "Shell 2");
    let tab2_id = tab2.id;
    state.workspaces[0].tabs.push(tab1);
    state.workspaces[0].tabs.push(tab2);
    state.workspaces[0].active_tab = tab1_id;

    assert!(state.move_tab_to_workspace(tab1_id, ws_b).is_ok());

    let source = state.workspaces.iter().find(|ws| ws.id == ws_a).unwrap();
    assert_eq!(source.active_tab, tab2_id);
}

#[test]
fn move_tab_rejects_same_workspace() {
    let mut state = new_state();
    let ws_a = state.workspaces[0].id;

    let tab = dummy_tab(&mut state, "Shell 1");
    let tab_id = tab.id;
    state.workspaces[0].tabs.push(tab);
    state.workspaces[0].active_tab = tab_id;

    let result = state.move_tab_to_workspace(tab_id, ws_a);
    assert!(matches!(result, Err(MoveTabError::AlreadyInWorkspace)));
    assert_eq!(
        state.move_tab_to_workspace(tab_id, 77),
        Err(MoveTabError::WorkspaceNotFound)
    );
    assert_eq!(
        state.move_tab_to_workspace(77, ws_a),
        Err(MoveTabError::TabNotFound)
    );
}

#[test]
fn move_tab_empty_source_has_zero_active_tab() {
    let mut state = new_state();
    let ws_a = state.workspaces[0].id;
    let ws_b = create_workspace(&mut state, "target");

    let tab = dummy_tab(&mut state, "Shell 1");
    let tab_id = tab.id;
    state.workspaces[0].tabs.push(tab);
    state.workspaces[0].active_tab = tab_id;

    assert!(state.move_tab_to_workspace(tab_id, ws_b).is_ok());

    let source = state.workspaces.iter().find(|ws| ws.id == ws_a).unwrap();
    assert!(source.tabs.is_empty());
    assert_eq!(source.active_tab, 0);
}

#[test]
fn move_tab_uncollapses_target() {
    let mut state = new_state();
    let ws_b = create_workspace(&mut state, "target");
    state
        .workspaces
        .iter_mut()
        .find(|ws| ws.id == ws_b)
        .unwrap()
        .collapsed = true;

    let tab = dummy_tab(&mut state, "Shell 1");
    let tab_id = tab.id;
    state.workspaces[0].tabs.push(tab);
    state.workspaces[0].active_tab = tab_id;

    assert!(state.move_tab_to_workspace(tab_id, ws_b).is_ok());

    let target = state.workspaces.iter().find(|ws| ws.id == ws_b).unwrap();
    assert!(!target.collapsed);
}

#[test]
fn an_attended_tab_asks_for_no_attention() {
    let mut state = new_state();
    let ws = state.workspaces[0].id;
    let tab = add_tab_to_workspace(&mut state, ws, "Shell 1");
    state.workspaces[0].tabs[0].needs_attention = true;
    let focused = state.workspaces[0].tabs[0].focused_pane_id;
    state.workspaces[0].tabs[0].notification_msg = Some("done".to_string());
    assert!(!state.attend_pane(tab, 99));
    assert!(!state.workspaces[0].tabs[0].needs_attention);
    assert_eq!(state.workspaces[0].tabs[0].notification_msg, None);
    assert_eq!(state.workspaces[0].tabs[0].focused_pane_id, focused);
    assert!(!state.attend_pane(77, 1));
}

#[test]
fn ids_stay_apart() {
    let mut state = new_state();
    let ws_a = state.workspaces[0].id;
    let ws_b = create_workspace(&mut state, "b");
    for name in ["one", "two", "three"] {
        add_tab_to_workspace(&mut state, ws_a, name);
    }
    let moved = state.workspaces[0].tabs[1].id;
    assert_eq!(state.move_tab_to_workspace(moved, ws_b), Ok(()));
    let dashboard = state.create_dashboard_tab("d".to_string()).expect("an id");
    let ws_c = create_workspace(&mut state, "c");
    let mut ids: Vec<u32> = state
        .workspaces
        .iter()
        .flat_map(|ws| ws.tabs.iter().map(|tab| tab.id))
        .chain([ws_a, ws_b, ws_c])
        .collect();
    assert!(ids.contains(&dashboard));
    assert!(ids.iter().all(|id| *id < state.next_id));
    let count = ids.len();
    ids.sort_unstable();
    ids.dedup();
    assert_eq!(ids.len(), count);
    assert_eq!(
        state.find_tab(moved).map(|(ws, tab)| (ws.id, tab.id)),
        Some((ws_b, moved))
    );
}
