//! What the window's actions do.

use vstd::prelude::*;
use vstd::string::*;
use crate::keybindings::Action;
use crate::palette::pickers::TmuxUiState;
use crate::pane::{PaneNavigationDirection, SplitDirection};
use crate::task_launch::{
    RequestView, TaskDiscoverySnapshot, TaskLaunchRequest, TaskLaunchSurface,
};
use crate::text;
use crate::text::decimal_text;
use crate::workspace::{AppState, BroadcastScope, WorkspaceActionInfo};

verus! {

/// What the window shows, as far as its actions depend on it.
pub struct WindowSnapshot {
    pub tmux: TmuxUiState,
    pub search_visible: bool,
    pub palette_visible: bool,
    pub inspector_visible: bool,
    pub history_visible: bool,
    pub dock_visible: bool,
    pub sidebar_compact: bool,
    /// Whether keys of the leader mode are configured.
    pub has_leader_keys: bool,
    /// The first pane that needs attention, with its tab.
    pub attention: Option<(u32, u32)>,
}

/// What an action of the window does.
pub enum WindowCommand<'a> {
    /// There is nothing that the action applies to.
    Nothing,
    OpenTab { workspace_id: u32 },
    ShowTmuxDialog,
    /// Tells the user why tmux cannot be used.
    TmuxUnavailable(&'a String),
    ActivatePreviousTab,
    RegisterProject,
    ShowSearch,
    FindNext,
    SetDockVisible(bool),
    SetSidebarCompact(bool),
    CopyRecentOutput,
    CopyLastMessage,
    JumpToPrompt { previous: bool },
    FocusAttention { tab_id: u32, pane_id: u32 },
    ClosePalette,
    OpenPalette,
    ShowShortcutHelp,
    OpenSendToPane { last_output: bool },
    RelayLastMessage,
    OpenClipboardHistory,
    OpenRecentFiles,
    PeekSelection,
    SetInspectorVisible(bool),
    SetHistoryVisible(bool),
    CopySelection,
    Paste,
    ToggleSelectionMode,
    ToggleBroadcast,
    SetBroadcast(Option<BroadcastScope>),
    DiscoverTasks { tab_id: u32 },
    /// Tells the user that the leader mode has no keys.
    LeaderNotConfigured,
    ShowLeaderKeys,
    ShowQuickActions,
    /// Splits the active pane. The tmux server of the tab is checked first, if there is an
    /// active tab.
    SplitPane { direction: SplitDirection, check_tab: Option<u32> },
    ClosePane { tab_id: u32, pane_id: u32 },
    TogglePaneZoom,
    FocusPane(PaneNavigationDirection),
    CreateWorkspace,
    ActivatePreviousWorkspace,
    /// Goes this many workspaces on, round and round.
    StepWorkspace(i32),
}

/// The id of the active tab.
pub open spec fn active_tab_id(state: AppState) -> Option<u32> {
    match state.active_tab_value() {
        Some(tab) => Some(tab.id),
        None => None,
    }
}

/// What an action of the window does.
pub open spec fn command_of<'a>(
    action: Action,
    state: AppState,
    window: &'a WindowSnapshot,
) -> WindowCommand<'a> {
    match action {
        Action::NewTab => match state.active_workspace_value() {
            Some(ws) => WindowCommand::OpenTab { workspace_id: ws.id },
            None => WindowCommand::Nothing,
        },
        Action::PreviousTab => WindowCommand::ActivatePreviousTab,
        Action::NewTmuxTab => match &window.tmux.unavailable_message {
            Some(message) => WindowCommand::TmuxUnavailable(message),
            None => WindowCommand::ShowTmuxDialog,
        },
        Action::RegisterProject => WindowCommand::RegisterProject,
        Action::SearchToggle => if window.search_visible {
            WindowCommand::FindNext
        } else {
            WindowCommand::ShowSearch
        },
        Action::ToggleDock => WindowCommand::SetDockVisible(!window.dock_visible),
        Action::ToggleSidebarCompact => WindowCommand::SetSidebarCompact(!window.sidebar_compact),
        Action::CopyRecentOutput => WindowCommand::CopyRecentOutput,
        Action::CopyLastMessage => WindowCommand::CopyLastMessage,
        Action::JumpPreviousPrompt => WindowCommand::JumpToPrompt { previous: true },
        Action::JumpNextPrompt => WindowCommand::JumpToPrompt { previous: false },
        Action::JumpAttention => match window.attention {
            Some((tab_id, pane_id)) => WindowCommand::FocusAttention { tab_id, pane_id },
            None => WindowCommand::Nothing,
        },
        Action::CommandPalette => if window.palette_visible {
            WindowCommand::ClosePalette
        } else {
            WindowCommand::OpenPalette
        },
        Action::ShortcutHelp => WindowCommand::ShowShortcutHelp,
        Action::SendToPane => WindowCommand::OpenSendToPane { last_output: false },
        Action::SendLastOutputToPane => WindowCommand::OpenSendToPane { last_output: true },
        Action::RelayLastMessage => WindowCommand::RelayLastMessage,
        Action::ClipboardHistory => WindowCommand::OpenClipboardHistory,
        Action::RecentFiles => WindowCommand::OpenRecentFiles,
        Action::PeekFile => WindowCommand::PeekSelection,
        Action::WorkspaceInspector => WindowCommand::SetInspectorVisible(
            !window.inspector_visible,
        ),
        Action::HistoryView => WindowCommand::SetHistoryVisible(!window.history_visible),
        Action::Copy => WindowCommand::CopySelection,
        Action::Paste => WindowCommand::Paste,
        Action::ToggleSelectionMode => WindowCommand::ToggleSelectionMode,
        Action::ToggleBroadcastInput => WindowCommand::ToggleBroadcast,
        Action::BroadcastTab => WindowCommand::SetBroadcast(Some(BroadcastScope::Tab)),
        Action::BroadcastWorkspace => WindowCommand::SetBroadcast(Some(BroadcastScope::Workspace)),
        Action::BroadcastOff => WindowCommand::SetBroadcast(None),
        Action::DiscoverTab => match active_tab_id(state) {
            Some(tab_id) => WindowCommand::DiscoverTasks { tab_id },
            None => WindowCommand::Nothing,
        },
        Action::LeaderMode => if window.has_leader_keys {
            WindowCommand::ShowLeaderKeys
        } else {
            WindowCommand::LeaderNotConfigured
        },
        Action::QuickAction => WindowCommand::ShowQuickActions,
        Action::SplitVertical => WindowCommand::SplitPane {
            direction: SplitDirection::Vertical,
            check_tab: active_tab_id(state),
        },
        Action::SplitHorizontal => WindowCommand::SplitPane {
            direction: SplitDirection::Horizontal,
            check_tab: active_tab_id(state),
        },
        Action::ClosePane => match state.active_tab_value() {
            Some(tab) => WindowCommand::ClosePane {
                tab_id: tab.id,
                pane_id: tab.focused_pane_id,
            },
            None => WindowCommand::Nothing,
        },
        Action::TogglePaneZoom => WindowCommand::TogglePaneZoom,
        Action::FocusPaneLeft => WindowCommand::FocusPane(PaneNavigationDirection::Left),
        Action::FocusPaneRight => WindowCommand::FocusPane(PaneNavigationDirection::Right),
        Action::FocusPaneUp => WindowCommand::FocusPane(PaneNavigationDirection::Up),
        Action::FocusPaneDown => WindowCommand::FocusPane(PaneNavigationDirection::Down),
        Action::NewWorkspace => WindowCommand::CreateWorkspace,
        Action::PreviousWorkspace => WindowCommand::ActivatePreviousWorkspace,
        Action::NextWorkspace => WindowCommand::StepWorkspace(1),
        Action::PrevWorkspace => WindowCommand::StepWorkspace((-1) as i32),
    }
}

/// The id of the active tab.
fn find_active_tab_id(state: &AppState) -> (r: Option<u32>)
    ensures
        r == active_tab_id(*state),
{
    match state.active_tab() {
        Some(tab) => Some(tab.id),
        None => None,
    }
}

/// What an action of the window does.
pub fn window_command<'a>(
    action: Action,
    state: &AppState,
    window: &'a WindowSnapshot,
) -> (r: WindowCommand<'a>)
    ensures
        r == command_of(action, *state, window),
{
    match action {
        Action::NewTab => match state.active_ws() {
            Some(ws) => WindowCommand::OpenTab { workspace_id: ws.id },
            None => WindowCommand::Nothing,
        },
        Action::PreviousTab => WindowCommand::ActivatePreviousTab,
        Action::NewTmuxTab => match &window.tmux.unavailable_message {
            Some(message) => WindowCommand::TmuxUnavailable(message),
            None => WindowCommand::ShowTmuxDialog,
        },
        Action::RegisterProject => WindowCommand::RegisterProject,
        Action::SearchToggle => {
            if window.search_visible {
                WindowCommand::FindNext
            } else {
                WindowCommand::ShowSearch
            }
        },
        Action::ToggleDock => WindowCommand::SetDockVisible(!window.dock_visible),
        Action::ToggleSidebarCompact => WindowCommand::SetSidebarCompact(!window.sidebar_compact),
        Action::CopyRecentOutput => WindowCommand::CopyRecentOutput,
        Action::CopyLastMessage => WindowCommand::CopyLastMessage,
        Action::JumpPreviousPrompt => WindowCommand::JumpToPrompt { previous: true },
        Action::JumpNextPrompt => WindowCommand::JumpToPrompt { previous: false },
        Action::JumpAttention => match window.attention {
            Some((tab_id, pane_id)) => WindowCommand::FocusAttention { tab_id, pane_id },
            None => WindowCommand::Nothing,
        },
        Action::CommandPalette => {
            if window.palette_visible {
                WindowCommand::ClosePalette
            } else {
                WindowCommand::OpenPalette
            }
        },
        Action::ShortcutHelp => WindowCommand::ShowShortcutHelp,
        Action::SendToPane => WindowCommand::OpenSendToPane { last_output: false },
        Action::SendLastOutputToPane => WindowCommand::OpenSendToPane { last_output: true },
        Action::RelayLastMessage => WindowCommand::RelayLastMessage,
        Action::ClipboardHistory => WindowCommand::OpenClipboardHistory,
        Action::RecentFiles => WindowCommand::OpenRecentFiles,
        Action::PeekFile => WindowCommand::PeekSelection,
        Action::WorkspaceInspector => WindowCommand::SetInspectorVisible(
            !window.inspector_visible,
        ),
        Action::HistoryView => WindowCommand::SetHistoryVisible(!window.history_visible),
        Action::Copy => WindowCommand::CopySelection,
        Action::Paste => WindowCommand::Paste,
        Action::ToggleSelectionMode => WindowCommand::ToggleSelectionMode,
        Action::ToggleBroadcastInput => WindowCommand::ToggleBroadcast,
        Action::BroadcastTab => WindowCommand::SetBroadcast(Some(BroadcastScope::Tab)),
        Action::BroadcastWorkspace => WindowCommand::SetBroadcast(Some(BroadcastScope::Workspace)),
        Action::BroadcastOff => WindowCommand::SetBroadcast(None),
        Action::DiscoverTab => match find_active_tab_id(state) {
            Some(tab_id) => WindowCommand::DiscoverTasks { tab_id },
            None => WindowCommand::Nothing,
        },
        Action::LeaderMode => {
            if window.has_leader_keys {
                WindowCommand::ShowLeaderKeys
            } else {
                WindowCommand::LeaderNotConfigured
            }
        },
        Action::QuickAction => WindowCommand::ShowQuickActions,
        Action::SplitVertical => WindowCommand::SplitPane {
            direction: SplitDirection::Vertical,
            check_tab: find_active_tab_id(state),
        },
        Action::SplitHorizontal => WindowCommand::SplitPane {
            direction: SplitDirection::Horizontal,
            check_tab: find_active_tab_id(state),
        },
        Action::ClosePane => match state.active_tab() {
            Some(tab) => WindowCommand::ClosePane {
                tab_id: tab.id,
                pane_id: tab.focused_pane_id,
            },
            None => WindowCommand::Nothing,
        },
        Action::TogglePaneZoom => WindowCommand::TogglePaneZoom,
        Action::FocusPaneLeft => WindowCommand::FocusPane(PaneNavigationDirection::Left),
        Action::FocusPaneRight => WindowCommand::FocusPane(PaneNavigationDirection::Right),
        Action::FocusPaneUp => WindowCommand::FocusPane(PaneNavigationDirection::Up),
        Action::FocusPaneDown => WindowCommand::FocusPane(PaneNavigationDirection::Down),
        Action::NewWorkspace => WindowCommand::CreateWorkspace,
        Action::PreviousWorkspace => WindowCommand::ActivatePreviousWorkspace,
        Action::NextWorkspace => WindowCommand::StepWorkspace(1),
        Action::PrevWorkspace => WindowCommand::StepWorkspace(-1),
    }
}

/// A toggle undoes itself: in a window that shows what the first use led to, the second
/// leads back.
pub proof fn law_toggles_undo_themselves(state: AppState, window: WindowSnapshot)
    ensures
        ({
            let dock = WindowSnapshot { dock_visible: !window.dock_visible, ..window };
            let sidebar = WindowSnapshot { sidebar_compact: !window.sidebar_compact, ..window };
            let inspector = WindowSnapshot {
                inspector_visible: !window.inspector_visible,
                ..window
            };
            let history = WindowSnapshot { history_visible: !window.history_visible, ..window };
            &&& command_of(Action::ToggleDock, state, &dock) == WindowCommand::SetDockVisible(
                window.dock_visible,
            )
            &&& command_of(Action::ToggleSidebarCompact, state, &sidebar)
                == WindowCommand::SetSidebarCompact(window.sidebar_compact)
            &&& command_of(Action::WorkspaceInspector, state, &inspector)
                == WindowCommand::SetInspectorVisible(window.inspector_visible)
            &&& command_of(Action::HistoryView, state, &history)
                == WindowCommand::SetHistoryVisible(window.history_visible)
        }),
{
}

/// The name of a new workspace before its checkout is known: its number.
pub fn new_workspace_name(state: &AppState) -> (r: String)
    requires
        state.workspaces@.len() < u64::MAX,
    ensures
        r@ == "Workspace "@ + text::decimal((state.workspaces@.len() + 1) as nat),
{
    let mut r = "Workspace ".to_owned();
    let count: usize = state.workspaces.len();
    let number = decimal_text(count as u64 + 1);
    r.append(number.as_str());
    r
}

/// The request to run a workspace action that a key started, for the active tab. Without
/// an active tab the request names tab 0, which is none. `discovery` is what was
/// discovered for the tab.
pub fn workspace_chord_task_launch_request(
    state: &AppState,
    discovery: Option<TaskDiscoverySnapshot>,
    info: &WorkspaceActionInfo,
) -> (r: TaskLaunchRequest)
    ensures
        r.deep_view() == (RequestView {
            surface: TaskLaunchSurface::BindableAction,
            source_tab_id: match active_tab_id(*state) {
                Some(tab_id) => tab_id,
                None => 0,
            },
            discovery: discovery.deep_view(),
            task_name: info.task_name@,
            workspace_action: Some(info.action),
        }),
{
    TaskLaunchRequest {
        surface: TaskLaunchSurface::BindableAction,
        source_tab_id: match find_active_tab_id(state) {
            Some(tab_id) => tab_id,
            None => 0,
        },
        discovery,
        task_name: info.task_name.clone(),
        workspace_action: Some(info.action),
    }
}

/// What the actions of the window do.
pub proof fn law_what_the_actions_do(state: AppState, window: WindowSnapshot)
    ensures
        command_of(Action::PreviousTab, state, &window) is ActivatePreviousTab,
        command_of(Action::RegisterProject, state, &window) is RegisterProject,
        command_of(Action::CopyRecentOutput, state, &window) is CopyRecentOutput,
        command_of(Action::CopyLastMessage, state, &window) is CopyLastMessage,
        command_of(Action::JumpPreviousPrompt, state, &window) == (WindowCommand::JumpToPrompt {
            previous: true,
        }),
        command_of(Action::JumpNextPrompt, state, &window) == (WindowCommand::JumpToPrompt {
            previous: false,
        }),
        command_of(Action::ShortcutHelp, state, &window) is ShowShortcutHelp,
        command_of(Action::SendToPane, state, &window) == (WindowCommand::OpenSendToPane {
            last_output: false,
        }),
        command_of(Action::SendLastOutputToPane, state, &window) == (
        WindowCommand::OpenSendToPane { last_output: true }),
        command_of(Action::RelayLastMessage, state, &window) is RelayLastMessage,
        command_of(Action::ClipboardHistory, state, &window) is OpenClipboardHistory,
        command_of(Action::RecentFiles, state, &window) is OpenRecentFiles,
        command_of(Action::PeekFile, state, &window) is PeekSelection,
        command_of(Action::Copy, state, &window) is CopySelection,
        command_of(Action::Paste, state, &window) is Paste,
        command_of(Action::ToggleSelectionMode, state, &window) is ToggleSelectionMode,
        command_of(Action::ToggleBroadcastInput, state, &window) is ToggleBroadcast,
        command_of(Action::BroadcastTab, state, &window) == WindowCommand::SetBroadcast(
            Some(BroadcastScope::Tab),
        ),
        command_of(Action::BroadcastWorkspace, state, &window) == WindowCommand::SetBroadcast(
            Some(BroadcastScope::Workspace),
        ),
        command_of(Action::BroadcastOff, state, &window) == WindowCommand::SetBroadcast(None),
        command_of(Action::QuickAction, state, &window) is ShowQuickActions,
        command_of(Action::TogglePaneZoom, state, &window) is TogglePaneZoom,
        command_of(Action::FocusPaneLeft, state, &window) == WindowCommand::FocusPane(
            PaneNavigationDirection::Left,
        ),
        command_of(Action::FocusPaneRight, state, &window) == WindowCommand::FocusPane(
            PaneNavigationDirection::Right,
        ),
        command_of(Action::FocusPaneUp, state, &window) == WindowCommand::FocusPane(
            PaneNavigationDirection::Up,
        ),
        command_of(Action::FocusPaneDown, state, &window) == WindowCommand::FocusPane(
            PaneNavigationDirection::Down,
        ),
        command_of(Action::NewWorkspace, state, &window) is CreateWorkspace,
        command_of(Action::PreviousWorkspace, state, &window) is ActivatePreviousWorkspace,
        command_of(Action::NextWorkspace, state, &window) == WindowCommand::StepWorkspace(1),
        command_of(Action::PrevWorkspace, state, &window) == WindowCommand::StepWorkspace(
            (-1) as i32,
        ),
{
}

/// Actions on a tab are about the tab with the focus, and do nothing without one; a tab is
/// opened in the workspace with the focus.
pub proof fn law_actions_are_about_the_focus(state: AppState, window: WindowSnapshot)
    ensures
        state.active_workspace_value() is None ==> command_of(Action::NewTab, state, &window)
            is Nothing,
        state.active_workspace_value() matches Some(ws) ==> command_of(
            Action::NewTab,
            state,
            &window,
        ) == (WindowCommand::OpenTab { workspace_id: ws.id }),
        state.active_tab_value() is None ==> command_of(Action::ClosePane, state, &window) is Nothing
            && command_of(Action::DiscoverTab, state, &window) is Nothing && command_of(
            Action::SplitVertical,
            state,
            &window,
        ) == (WindowCommand::SplitPane { direction: SplitDirection::Vertical, check_tab: None }),
        state.active_tab_value() matches Some(tab) ==> {
            let tab = state.active_tab_value()->0;
            &&& command_of(Action::ClosePane, state, &window) == (WindowCommand::ClosePane {
                tab_id: tab.id,
                pane_id: tab.focused_pane_id,
            })
            &&& command_of(Action::DiscoverTab, state, &window) == (WindowCommand::DiscoverTasks {
                tab_id: tab.id,
            })
            &&& command_of(Action::SplitVertical, state, &window) == (WindowCommand::SplitPane {
                direction: SplitDirection::Vertical,
                check_tab: Some(tab.id),
            })
            &&& command_of(Action::SplitHorizontal, state, &window) == (WindowCommand::SplitPane {
                direction: SplitDirection::Horizontal,
                check_tab: Some(tab.id),
            })
        },
{
}

/// Some actions go by what the window shows: a search that is open is continued, an open
/// palette is closed, and attention leads to the pane that asks for it.
pub proof fn law_actions_go_by_what_is_shown(state: AppState, window: WindowSnapshot)
    ensures
        window.search_visible ==> command_of(Action::SearchToggle, state, &window) is FindNext,
        !window.search_visible ==> command_of(Action::SearchToggle, state, &window) is ShowSearch,
        window.palette_visible ==> command_of(Action::CommandPalette, state, &window)
            is ClosePalette,
        !window.palette_visible ==> command_of(Action::CommandPalette, state, &window)
            is OpenPalette,
        window.has_leader_keys ==> command_of(Action::LeaderMode, state, &window) is ShowLeaderKeys,
        !window.has_leader_keys ==> command_of(Action::LeaderMode, state, &window)
            is LeaderNotConfigured,
        window.attention is None ==> command_of(Action::JumpAttention, state, &window) is Nothing,
        window.attention matches Some((tab, pane)) ==> command_of(
            Action::JumpAttention,
            state,
            &window,
        ) == (WindowCommand::FocusAttention {
            tab_id: match window.attention { Some((tab, _)) => tab, None => 0 },
            pane_id: match window.attention { Some((_, pane)) => pane, None => 0 },
        }),
        window.tmux.unavailable_message is None ==> command_of(Action::NewTmuxTab, state, &window)
            is ShowTmuxDialog,
        window.tmux.unavailable_message is Some ==> command_of(Action::NewTmuxTab, state, &window)
            is TmuxUnavailable,
{
}

} // verus!
