//! The actions that keys and the palette can start.

use vstd::prelude::*;
use vstd::string::*;

verus! {

/// An action of the window.
#[derive(Clone, Copy, Debug, PartialEq, Eq, Structural)]
pub enum Action {
    NewTab,
    PreviousTab,
    NewTmuxTab,
    RegisterProject,
    SearchToggle,
    ToggleDock,
    ToggleSidebarCompact,
    CopyRecentOutput,
    CopyLastMessage,
    JumpPreviousPrompt,
    JumpNextPrompt,
    JumpAttention,
    CommandPalette,
    ShortcutHelp,
    SendToPane,
    SendLastOutputToPane,
    RelayLastMessage,
    ClipboardHistory,
    RecentFiles,
    PeekFile,
    WorkspaceInspector,
    HistoryView,
    Copy,
    Paste,
    ToggleSelectionMode,
    ToggleBroadcastInput,
    BroadcastTab,
    BroadcastWorkspace,
    BroadcastOff,
    DiscoverTab,
    LeaderMode,
    QuickAction,
    SplitVertical,
    SplitHorizontal,
    ClosePane,
    TogglePaneZoom,
    FocusPaneLeft,
    FocusPaneRight,
    FocusPaneUp,
    FocusPaneDown,
    NewWorkspace,
    PreviousWorkspace,
    NextWorkspace,
    PrevWorkspace,
}

/// The name of an action of the window.
pub open spec fn action_name(action: Action) -> Seq<char> {
    match action {
        Action::NewTab => "new-tab"@,
        Action::PreviousTab => "previous-tab"@,
        Action::NewTmuxTab => "new-tmux-tab"@,
        Action::RegisterProject => "register-project"@,
        Action::SearchToggle => "search-toggle"@,
        Action::ToggleDock => "toggle-dock"@,
        Action::ToggleSidebarCompact => "toggle-sidebar-compact"@,
        Action::CopyRecentOutput => "copy-recent-output"@,
        Action::CopyLastMessage => "copy-last-message"@,
        Action::JumpPreviousPrompt => "jump-previous-prompt"@,
        Action::JumpNextPrompt => "jump-next-prompt"@,
        Action::JumpAttention => "jump-attention"@,
        Action::CommandPalette => "command-palette"@,
        Action::ShortcutHelp => "shortcut-help"@,
        Action::SendToPane => "send-to-pane"@,
        Action::SendLastOutputToPane => "send-last-output-to-pane"@,
        Action::RelayLastMessage => "relay-last-message"@,
        Action::ClipboardHistory => "clipboard-history"@,
        Action::RecentFiles => "recent-files"@,
        Action::PeekFile => "peek-file"@,
        Action::WorkspaceInspector => "workspace-inspector"@,
        Action::HistoryView => "history-view"@,
        Action::Copy => "copy"@,
        Action::Paste => "paste-active-input"@,
        Action::ToggleSelectionMode => "toggle-selection-mode"@,
        Action::ToggleBroadcastInput => "toggle-broadcast-input"@,
        Action::BroadcastTab => "broadcast-tab"@,
        Action::BroadcastWorkspace => "broadcast-workspace"@,
        Action::BroadcastOff => "broadcast-off"@,
        Action::DiscoverTab => "discover-tab"@,
        Action::LeaderMode => "leader-mode"@,
        Action::QuickAction => "quick-action"@,
        Action::SplitVertical => "split-vertical"@,
        Action::SplitHorizontal => "split-horizontal"@,
        Action::ClosePane => "close-pane"@,
        Action::TogglePaneZoom => "toggle-pane-zoom"@,
        Action::FocusPaneLeft => "focus-pane-left"@,
        Action::FocusPaneRight => "focus-pane-right"@,
        Action::FocusPaneUp => "focus-pane-up"@,
        Action::FocusPaneDown => "focus-pane-down"@,
        Action::NewWorkspace => "new-workspace"@,
        Action::PreviousWorkspace => "previous-workspace"@,
        Action::NextWorkspace => "next-workspace"@,
        Action::PrevWorkspace => "prev-workspace"@,
    }
}

/// The actions that the window has a handler for: all but copying, which the terminal does.
pub open spec fn window_actions() -> Seq<Action> {
    seq![
        Action::NewTab,
        Action::PreviousTab,
        Action::NewTmuxTab,
        Action::RegisterProject,
        Action::SearchToggle,
        Action::ToggleDock,
        Action::ToggleSidebarCompact,
        Action::CopyRecentOutput,
        Action::CopyLastMessage,
        Action::JumpPreviousPrompt,
        Action::JumpNextPrompt,
        Action::JumpAttention,
        Action::CommandPalette,
        Action::ShortcutHelp,
        Action::SendToPane,
        Action::SendLastOutputToPane,
        Action::RelayLastMessage,
        Action::ClipboardHistory,
        Action::RecentFiles,
        Action::PeekFile,
        Action::WorkspaceInspector,
        Action::HistoryView,
        Action::Paste,
        Action::ToggleSelectionMode,
        Action::ToggleBroadcastInput,
        Action::BroadcastTab,
        Action::BroadcastWorkspace,
        Action::BroadcastOff,
        Action::DiscoverTab,
        Action::LeaderMode,
        Action::QuickAction,
        Action::SplitVertical,
        Action::SplitHorizontal,
        Action::ClosePane,
        Action::TogglePaneZoom,
        Action::FocusPaneLeft,
        Action::FocusPaneRight,
        Action::FocusPaneUp,
        Action::FocusPaneDown,
        Action::NewWorkspace,
        Action::PreviousWorkspace,
        Action::NextWorkspace,
        Action::PrevWorkspace,
    ]
}

impl Action {
    /// The name of an action of the window.
    pub fn name(self) -> (r: &'static str)
        ensures
            r@ == action_name(self),
    {
        match self {
            Action::NewTab => "new-tab",
            Action::PreviousTab => "previous-tab",
            Action::NewTmuxTab => "new-tmux-tab",
            Action::RegisterProject => "register-project",
            Action::SearchToggle => "search-toggle",
            Action::ToggleDock => "toggle-dock",
            Action::ToggleSidebarCompact => "toggle-sidebar-compact",
            Action::CopyRecentOutput => "copy-recent-output",
            Action::CopyLastMessage => "copy-last-message",
            Action::JumpPreviousPrompt => "jump-previous-prompt",
            Action::JumpNextPrompt => "jump-next-prompt",
            Action::JumpAttention => "jump-attention",
            Action::CommandPalette => "command-palette",
            Action::ShortcutHelp => "shortcut-help",
            Action::SendToPane => "send-to-pane",
            Action::SendLastOutputToPane => "send-last-output-to-pane",
            Action::RelayLastMessage => "relay-last-message",
            Action::ClipboardHistory => "clipboard-history",
            Action::RecentFiles => "recent-files",
            Action::PeekFile => "peek-file",
            Action::WorkspaceInspector => "workspace-inspector",
            Action::HistoryView => "history-view",
            Action::Copy => "copy",
            Action::Paste => "paste-active-input",
            Action::ToggleSelectionMode => "toggle-selection-mode",
            Action::ToggleBroadcastInput => "toggle-broadcast-input",
            Action::BroadcastTab => "broadcast-tab",
            Action::BroadcastWorkspace => "broadcast-workspace",
            Action::BroadcastOff => "broadcast-off",
            Action::DiscoverTab => "discover-tab",
            Action::LeaderMode => "leader-mode",
            Action::QuickAction => "quick-action",
            Action::SplitVertical => "split-vertical",
            Action::SplitHorizontal => "split-horizontal",
            Action::ClosePane => "close-pane",
            Action::TogglePaneZoom => "toggle-pane-zoom",
            Action::FocusPaneLeft => "focus-pane-left",
            Action::FocusPaneRight => "focus-pane-right",
            Action::FocusPaneUp => "focus-pane-up",
            Action::FocusPaneDown => "focus-pane-down",
            Action::NewWorkspace => "new-workspace",
            Action::PreviousWorkspace => "previous-workspace",
            Action::NextWorkspace => "next-workspace",
            Action::PrevWorkspace => "prev-workspace",
        }
    }

    /// The actions that the window has a handler for.
    pub fn of_window() -> (r: Vec<Action>)
        ensures
            r@ == window_actions(),
    {
        let list = vec![
            Action::NewTab,
            Action::PreviousTab,
            Action::NewTmuxTab,
            Action::RegisterProject,
            Action::SearchToggle,
            Action::ToggleDock,
            Action::ToggleSidebarCompact,
            Action::CopyRecentOutput,
            Action::CopyLastMessage,
            Action::JumpPreviousPrompt,
            Action::JumpNextPrompt,
            Action::JumpAttention,
            Action::CommandPalette,
            Action::ShortcutHelp,
            Action::SendToPane,
            Action::SendLastOutputToPane,
            Action::RelayLastMessage,
            Action::ClipboardHistory,
            Action::RecentFiles,
            Action::PeekFile,
            Action::WorkspaceInspector,
            Action::HistoryView,
            Action::Paste,
            Action::ToggleSelectionMode,
            Action::ToggleBroadcastInput,
            Action::BroadcastTab,
            Action::BroadcastWorkspace,
            Action::BroadcastOff,
            Action::DiscoverTab,
            Action::LeaderMode,
            Action::QuickAction,
            Action::SplitVertical,
            Action::SplitHorizontal,
            Action::ClosePane,
            Action::TogglePaneZoom,
            Action::FocusPaneLeft,
            Action::FocusPaneRight,
            Action::FocusPaneUp,
            Action::FocusPaneDown,
            Action::NewWorkspace,
            Action::PreviousWorkspace,
            Action::NextWorkspace,
            Action::PrevWorkspace,
        ];
        assert(list@ =~= window_actions());
        list
    }
}

/// Every action but copying has a handler in the window.
pub proof fn law_every_action_has_a_handler(action: Action)
    ensures
        window_actions().contains(action) <==> action != Action::Copy,
{
    let all = window_actions();
    match action {
        Action::NewTab => assert(all[0] == action),
        Action::PreviousTab => assert(all[1] == action),
        Action::NewTmuxTab => assert(all[2] == action),
        Action::RegisterProject => assert(all[3] == action),
        Action::SearchToggle => assert(all[4] == action),
        Action::ToggleDock => assert(all[5] == action),
        Action::ToggleSidebarCompact => assert(all[6] == action),
        Action::CopyRecentOutput => assert(all[7] == action),
        Action::CopyLastMessage => assert(all[8] == action),
        Action::JumpPreviousPrompt => assert(all[9] == action),
        Action::JumpNextPrompt => assert(all[10] == action),
        Action::JumpAttention => assert(all[11] == action),
        Action::CommandPalette => assert(all[12] == action),
        Action::ShortcutHelp => assert(all[13] == action),
        Action::SendToPane => assert(all[14] == action),
        Action::SendLastOutputToPane => assert(all[15] == action),
        Action::RelayLastMessage => assert(all[16] == action),
        Action::ClipboardHistory => assert(all[17] == action),
        Action::RecentFiles => assert(all[18] == action),
        Action::PeekFile => assert(all[19] == action),
        Action::WorkspaceInspector => assert(all[20] == action),
        Action::HistoryView => assert(all[21] == action),
        Action::Paste => assert(all[22] == action),
        Action::ToggleSelectionMode => assert(all[23] == action),
        Action::ToggleBroadcastInput => assert(all[24] == action),
        Action::BroadcastTab => assert(all[25] == action),
        Action::BroadcastWorkspace => assert(all[26] == action),
        Action::BroadcastOff => assert(all[27] == action),
        Action::DiscoverTab => assert(all[28] == action),
        Action::LeaderMode => assert(all[29] == action),
        Action::QuickAction => assert(all[30] == action),
        Action::SplitVertical => assert(all[31] == action),
        Action::SplitHorizontal => assert(all[32] == action),
        Action::ClosePane => assert(all[33] == action),
        Action::TogglePaneZoom => assert(all[34] == action),
        Action::FocusPaneLeft => assert(all[35] == action),
        Action::FocusPaneRight => assert(all[36] == action),
        Action::FocusPaneUp => assert(all[37] == action),
        Action::FocusPaneDown => assert(all[38] == action),
        Action::NewWorkspace => assert(all[39] == action),
        Action::PreviousWorkspace => assert(all[40] == action),
        Action::NextWorkspace => assert(all[41] == action),
        Action::PrevWorkspace => assert(all[42] == action),
        Action::Copy => {},
    }
}

/// The keys that actions are bound to, as they are shown.
pub struct Shortcuts {
    pub labels: Vec<(Action, String)>,
}

/// The keys of an action, as they are shown.
pub open spec fn shortcut_of(labels: Seq<(Action, Seq<char>)>, action: Action) -> Option<Seq<char>>
    decreases labels.len(),
{
    if labels.len() == 0 {
        None
    } else if labels[0].0 == action {
        Some(labels[0].1)
    } else {
        shortcut_of(labels.skip(1), action)
    }
}

impl Shortcuts {
    /// The bindings as a sequence.
    pub open spec fn view(&self) -> Seq<(Action, Seq<char>)> {
        self.labels@.map_values(|pair: (Action, String)| (pair.0, pair.1@))
    }

    /// The keys of an action, unless it is unbound.
    pub fn label_for(&self, action: Action) -> (r: Option<String>)
        ensures
            r.deep_view() == shortcut_of(self@, action),
    {
        let ghost all = self@;
        let mut i: usize = 0;
        assert(all.skip(0) =~= all);
        while i < self.labels.len()
            invariant
                all == self@,
                i <= all.len(),
                shortcut_of(all.skip(i as int), action) == shortcut_of(all, action),
            decreases all.len() - i,
        {
            assert(all.skip(i as int).skip(1) =~= all.skip(i + 1));
            if self.labels[i].0 == action {
                return Some(self.labels[i].1.clone());
            }
            i += 1;
        }
        None
    }
}

/// The names by which the window and its keys know the actions.
pub proof fn law_names_of_actions()
    ensures
        action_name(Action::NewTab) == "new-tab"@,
        action_name(Action::PreviousTab) == "previous-tab"@,
        action_name(Action::NewTmuxTab) == "new-tmux-tab"@,
        action_name(Action::RegisterProject) == "register-project"@,
        action_name(Action::SearchToggle) == "search-toggle"@,
        action_name(Action::ToggleDock) == "toggle-dock"@,
        action_name(Action::ToggleSidebarCompact) == "toggle-sidebar-compact"@,
        action_name(Action::CopyRecentOutput) == "copy-recent-output"@,
        action_name(Action::CopyLastMessage) == "copy-last-message"@,
        action_name(Action::JumpPreviousPrompt) == "jump-previous-prompt"@,
        action_name(Action::JumpNextPrompt) == "jump-next-prompt"@,
        action_name(Action::JumpAttention) == "jump-attention"@,
        action_name(Action::CommandPalette) == "command-palette"@,
        action_name(Action::ShortcutHelp) == "shortcut-help"@,
        action_name(Action::SendToPane) == "send-to-pane"@,
        action_name(Action::SendLastOutputToPane) == "send-last-output-to-pane"@,
        action_name(Action::RelayLastMessage) == "relay-last-message"@,
        action_name(Action::ClipboardHistory) == "clipboard-history"@,
        action_name(Action::RecentFiles) == "recent-files"@,
        action_name(Action::PeekFile) == "peek-file"@,
        action_name(Action::WorkspaceInspector) == "workspace-inspector"@,
        action_name(Action::HistoryView) == "history-view"@,
        action_name(Action::Copy) == "copy"@,
        action_name(Action::Paste) == "paste-active-input"@,
        action_name(Action::ToggleSelectionMode) == "toggle-selection-mode"@,
        action_name(Action::ToggleBroadcastInput) == "toggle-broadcast-input"@,
        action_name(Action::BroadcastTab) == "broadcast-tab"@,
        action_name(Action::BroadcastWorkspace) == "broadcast-workspace"@,
        action_name(Action::BroadcastOff) == "broadcast-off"@,
        action_name(Action::DiscoverTab) == "discover-tab"@,
        action_name(Action::LeaderMode) == "leader-mode"@,
        action_name(Action::QuickAction) == "quick-action"@,
        action_name(Action::SplitVertical) == "split-vertical"@,
        action_name(Action::SplitHorizontal) == "split-horizontal"@,
        action_name(Action::ClosePane) == "close-pane"@,
        action_name(Action::TogglePaneZoom) == "toggle-pane-zoom"@,
        action_name(Action::FocusPaneLeft) == "focus-pane-left"@,
        action_name(Action::FocusPaneRight) == "focus-pane-right"@,
        action_name(Action::FocusPaneUp) == "focus-pane-up"@,
        action_name(Action::FocusPaneDown) == "focus-pane-down"@,
        action_name(Action::NewWorkspace) == "new-workspace"@,
        action_name(Action::PreviousWorkspace) == "previous-workspace"@,
        action_name(Action::NextWorkspace) == "next-workspace"@,
        action_name(Action::PrevWorkspace) == "prev-workspace"@,
{
}

/// The keys of an action are those of the first binding of it; an action without a binding
/// has none.
pub proof fn law_keys_of_actions(labels: Seq<(Action, Seq<char>)>, action: Action, i: int)
    ensures
        0 <= i < labels.len() && labels[i].0 == action && (forall|j: int|
            0 <= j < i ==> (#[trigger] labels[j]).0 != action) ==> shortcut_of(labels, action)
            == Some(labels[i].1),
        (forall|j: int| 0 <= j < labels.len() ==> (#[trigger] labels[j]).0 != action)
            ==> shortcut_of(labels, action) is None,
    decreases labels.len(),
{
    if labels.len() > 0 {
        let rest = labels.skip(1);
        law_keys_of_actions(rest, action, i - 1);
        if 0 < i < labels.len() && labels[i].0 == action && (forall|j: int|
            0 <= j < i ==> (#[trigger] labels[j]).0 != action) {
            assert(labels[0].0 != action);
            assert(rest[i - 1] == labels[i]);
            assert forall|j: int| 0 <= j < i - 1 implies (#[trigger] rest[j]).0 != action by {
                assert(rest[j] == labels[j + 1]);
            }
        }
        if forall|j: int| 0 <= j < labels.len() ==> (#[trigger] labels[j]).0 != action {
            assert(labels[0].0 != action);
            assert forall|j: int| 0 <= j < rest.len() implies (#[trigger] rest[j]).0 != action by {
                assert(rest[j] == labels[j + 1]);
            }
        }
    }
}

} // verus!
