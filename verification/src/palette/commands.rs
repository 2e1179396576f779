//! The commands of the palette.

use vstd::prelude::*;
use vstd::string::*;
use crate::keybindings;
use crate::keybindings::{Action, Shortcuts};
use crate::palette::entry;
use crate::palette::entry::{
    push_entry, push_plain, ActionView, EntryView, PaletteAction, PaletteEntry,
};
use crate::palette::pickers::TmuxUiState;
use crate::palette::records::ViewPreset;
use crate::text;
use crate::text::decimal_text;

verus! {

/// An entry with the keys of an action.
pub open spec fn bound(
    keys: Seq<(Action, Seq<char>)>,
    label: Seq<char>,
    key_action: Action,
    action: ActionView,
) -> EntryView {
    EntryView { label, shortcut: keybindings::shortcut_of(keys, key_action), action }
}

/// An entry that starts an action of the window.
pub open spec fn starting(
    keys: Seq<(Action, Seq<char>)>,
    label: Seq<char>,
    action: Action,
) -> EntryView {
    bound(keys, label, action, ActionView::Activate(action))
}

/// The entry for a new tab with a tmux session: without tmux it says why it cannot be.
pub open spec fn tmux_tab_entry(keys: Seq<(Action, Seq<char>)>, tmux: TmuxUiState) -> EntryView {
    bound(
        keys,
        if tmux.available {
            "New tmux-backed Tab…"@
        } else {
            "New tmux-backed Tab… (tmux unavailable)"@
        },
        Action::NewTmuxTab,
        match tmux.unavailable_message {
            Some(message) => ActionView::ShowError(message@),
            None => ActionView::Activate(Action::NewTmuxTab),
        },
    )
}

/// The entry that copies the recent output.
pub open spec fn copy_recent_entry(
    keys: Seq<(Action, Seq<char>)>,
    recent_lines: u64,
) -> EntryView {
    starting(
        keys,
        "Copy Recent Output ("@ + text::decimal(recent_lines as nat) + " lines)"@,
        Action::CopyRecentOutput,
    )
}

/// The commands for tabs and the window.
pub open spec fn tab_commands(keys: Seq<(Action, Seq<char>)>, tmux: TmuxUiState, recent_lines: u64) -> Seq<EntryView> {
    seq![
        starting(keys, "New Tab"@, Action::NewTab),
        starting(keys, "Previous Tab"@, Action::PreviousTab),
        tmux_tab_entry(keys, tmux),
        starting(keys, "Search in Terminal"@, Action::SearchToggle),
        starting(keys, "Toggle Right Dock"@, Action::ToggleDock),
        starting(keys, "Toggle Compact Sidebar"@, Action::ToggleSidebarCompact),
        copy_recent_entry(keys, recent_lines),
    ]
}

/// The commands that send and copy text.
pub open spec fn text_commands(keys: Seq<(Action, Seq<char>)>) -> Seq<EntryView> {
    seq![
        bound(keys, "Send to Pane…"@, Action::SendToPane, ActionView::OpenSendToPane { last_output: false }),
        entry::plain("Send Last Output to Pane…"@, ActionView::OpenSendToPane { last_output: true }),
        starting(keys, "Copy Last Agent Message"@, Action::CopyLastMessage),
        entry::plain("Relay Last Message to Pane…"@, ActionView::OpenRelayLastMessage),
        bound(keys, "Clipboard History…"@, Action::ClipboardHistory, ActionView::OpenClipboardHistory),
        bound(keys, "Recent Files…"@, Action::RecentFiles, ActionView::OpenRecentFiles),
    ]
}

/// The commands for panes.
pub open spec fn pane_commands(keys: Seq<(Action, Seq<char>)>) -> Seq<EntryView> {
    seq![
        starting(keys, "Workspace Inspector"@, Action::WorkspaceInspector),
        starting(keys, "Split Vertical"@, Action::SplitVertical),
        starting(keys, "Split Horizontal"@, Action::SplitHorizontal),
        starting(keys, "Close Pane"@, Action::ClosePane),
        starting(keys, "Toggle Pane Zoom"@, Action::TogglePaneZoom),
    ]
}

/// The commands for workspaces and templates.
pub open spec fn workspace_commands(keys: Seq<(Action, Seq<char>)>) -> Seq<EntryView> {
    seq![
        starting(keys, "New Workspace"@, Action::NewWorkspace),
        entry::plain("Save Current Tab as Template"@, ActionView::SaveCurrentTabTemplate),
        entry::plain("Save Current Workspace as Template"@, ActionView::SaveCurrentWorkspaceTemplate),
        entry::plain("New Tab from Template"@, ActionView::OpenTabTemplates),
        entry::plain("New Workspace from Template"@, ActionView::OpenWorkspaceTemplates),
        entry::plain("Delete Template"@, ActionView::DeleteTemplates),
        starting(keys, "Previous Workspace"@, Action::PreviousWorkspace),
        starting(keys, "Next Workspace"@, Action::NextWorkspace),
        starting(keys, "Cycle Previous Workspace"@, Action::PrevWorkspace),
    ]
}

/// The commands for the dashboard and its views.
pub open spec fn view_commands() -> Seq<EntryView> {
    seq![
        entry::plain("Open Dashboard"@, ActionView::OpenDashboard),
        entry::plain("Save View: Agent Activity"@, ActionView::SaveView(ViewPreset::AgentActivity)),
        entry::plain("Save View: Workspace Health"@, ActionView::SaveView(ViewPreset::WorkspaceHealth)),
        entry::plain("Save View: Listening Ports"@, ActionView::SaveView(ViewPreset::ListeningPorts)),
        entry::plain("Save View: Recent Alerts"@, ActionView::SaveView(ViewPreset::RecentAlerts)),
        entry::plain("Save View: Currently Flagged Panes"@, ActionView::SaveView(ViewPreset::CurrentlyFlaggedPanes)),
        entry::plain("Save View: Failing Test Runs"@, ActionView::SaveView(ViewPreset::FailingTestRuns)),
        entry::plain("Open Saved View"@, ActionView::OpenSavedViews),
        entry::plain("Delete Saved View"@, ActionView::DeleteSavedViews),
    ]
}

/// The commands for sessions and keys.
pub open spec fn session_commands() -> Seq<EntryView> {
    seq![
        entry::plain("Detach Pane"@, ActionView::DetachPane),
        entry::plain("Attach Session…"@, ActionView::AttachSession),
        entry::plain("Keyboard Shortcuts"@, ActionView::OpenKeybindingHelp),
    ]
}

/// The fixed commands, but for the jump to a tab that needs attention.
pub open spec fn fixed_commands(
    keys: Seq<(Action, Seq<char>)>,
    tmux: TmuxUiState,
    recent_lines: u64,
) -> Seq<EntryView> {
    tab_commands(keys, tmux, recent_lines) + text_commands(keys) + pane_commands(keys) + workspace_commands(keys) + view_commands() + session_commands()
}

/// The fixed commands. The jump to a tab that needs attention is the first where there is
/// such a tab, else it stands among those that move around.
pub open spec fn core_entries(
    keys: Seq<(Action, Seq<char>)>,
    tmux: TmuxUiState,
    recent_lines: u64,
    has_attention: bool,
) -> Seq<EntryView> {
    fixed_commands(keys, tmux, recent_lines).insert(
        if has_attention {
            0
        } else {
            5
        },
        starting(keys, "Jump to Attention Tab"@, Action::JumpAttention),
    )
}

/// Appends an entry with the keys of an action.
fn push_bound(
    entries: &mut Vec<PaletteEntry>,
    shortcuts: &Shortcuts,
    label: &str,
    key_action: Action,
    action: PaletteAction,
)
    ensures
        final(entries).deep_view() == old(entries).deep_view().push(
            bound(shortcuts@, label@, key_action, action.deep_view()),
        ),
{
    let keys = shortcuts.label_for(key_action);
    push_entry(entries, label.to_owned(), keys, action);
}

/// Appends an entry that starts an action of the window.
pub(crate) fn push_starting(
    entries: &mut Vec<PaletteEntry>,
    shortcuts: &Shortcuts,
    label: &str,
    action: Action,
)
    ensures
        final(entries).deep_view() == old(entries).deep_view().push(
            starting(shortcuts@, label@, action),
        ),
{
    push_bound(entries, shortcuts, label, action, PaletteAction::Activate(action));
}

/// Appends the entry for a new tab with a tmux session.
fn push_tmux_tab(entries: &mut Vec<PaletteEntry>, shortcuts: &Shortcuts, tmux: &TmuxUiState)
    ensures
        final(entries).deep_view() == old(entries).deep_view().push(
            tmux_tab_entry(shortcuts@, *tmux),
        ),
{
    let label = if tmux.available {
        "New tmux-backed Tab…"
    } else {
        "New tmux-backed Tab… (tmux unavailable)"
    };
    let action = match &tmux.unavailable_message {
        Some(message) => PaletteAction::ShowError(message.clone()),
        None => PaletteAction::Activate(Action::NewTmuxTab),
    };
    push_bound(entries, shortcuts, label, Action::NewTmuxTab, action);
}

/// Appends the entry that copies the recent output.
fn push_copy_recent(entries: &mut Vec<PaletteEntry>, shortcuts: &Shortcuts, recent_lines: u64)
    ensures
        final(entries).deep_view() == old(entries).deep_view().push(
            copy_recent_entry(shortcuts@, recent_lines),
        ),
{
    let mut label = "Copy Recent Output (".to_owned();
    let number = decimal_text(recent_lines);
    label.append(number.as_str());
    label.append(" lines)");
    push_starting(entries, shortcuts, label.as_str(), Action::CopyRecentOutput);
}

/// Appends the commands for tabs and the window.
fn push_tab_commands(entries: &mut Vec<PaletteEntry>, shortcuts: &Shortcuts, tmux: &TmuxUiState, recent_lines: u64)
    ensures
        final(entries).deep_view() == old(entries).deep_view() + tab_commands(shortcuts@, *tmux, recent_lines),
{
    let ghost head = entries.deep_view();
    push_starting(entries, shortcuts, "New Tab", Action::NewTab);
    push_starting(entries, shortcuts, "Previous Tab", Action::PreviousTab);
    push_tmux_tab(entries, shortcuts, tmux);
    push_starting(entries, shortcuts, "Search in Terminal", Action::SearchToggle);
    push_starting(entries, shortcuts, "Toggle Right Dock", Action::ToggleDock);
    push_starting(entries, shortcuts, "Toggle Compact Sidebar", Action::ToggleSidebarCompact);
    push_copy_recent(entries, shortcuts, recent_lines);
    assert(entries.deep_view() =~= head + tab_commands(shortcuts@, *tmux, recent_lines));
}

/// Appends the commands that send and copy text.
fn push_text_commands(entries: &mut Vec<PaletteEntry>, shortcuts: &Shortcuts)
    ensures
        final(entries).deep_view() == old(entries).deep_view() + text_commands(shortcuts@),
{
    let ghost head = entries.deep_view();
    push_bound(entries, shortcuts, "Send to Pane…", Action::SendToPane, PaletteAction::OpenSendToPane { last_output: false });
    push_plain(entries, "Send Last Output to Pane…", PaletteAction::OpenSendToPane { last_output: true });
    push_starting(entries, shortcuts, "Copy Last Agent Message", Action::CopyLastMessage);
    push_plain(entries, "Relay Last Message to Pane…", PaletteAction::OpenRelayLastMessage);
    push_bound(entries, shortcuts, "Clipboard History…", Action::ClipboardHistory, PaletteAction::OpenClipboardHistory);
    push_bound(entries, shortcuts, "Recent Files…", Action::RecentFiles, PaletteAction::OpenRecentFiles);
    assert(entries.deep_view() =~= head + text_commands(shortcuts@));
}

/// Appends the commands for panes.
fn push_pane_commands(entries: &mut Vec<PaletteEntry>, shortcuts: &Shortcuts)
    ensures
        final(entries).deep_view() == old(entries).deep_view() + pane_commands(shortcuts@),
{
    let ghost head = entries.deep_view();
    push_starting(entries, shortcuts, "Workspace Inspector", Action::WorkspaceInspector);
    push_starting(entries, shortcuts, "Split Vertical", Action::SplitVertical);
    push_starting(entries, shortcuts, "Split Horizontal", Action::SplitHorizontal);
    push_starting(entries, shortcuts, "Close Pane", Action::ClosePane);
    push_starting(entries, shortcuts, "Toggle Pane Zoom", Action::TogglePaneZoom);
    assert(entries.deep_view() =~= head + pane_commands(shortcuts@));
}

/// Appends the commands for workspaces and templates.
fn push_workspace_commands(entries: &mut Vec<PaletteEntry>, shortcuts: &Shortcuts)
    ensures
        final(entries).deep_view() == old(entries).deep_view() + workspace_commands(shortcuts@),
{
    let ghost head = entries.deep_view();
    push_starting(entries, shortcuts, "New Workspace", Action::NewWorkspace);
    push_plain(entries, "Save Current Tab as Template", PaletteAction::SaveCurrentTabTemplate);
    push_plain(entries, "Save Current Workspace as Template", PaletteAction::SaveCurrentWorkspaceTemplate);
    push_plain(entries, "New Tab from Template", PaletteAction::OpenTabTemplates);
    push_plain(entries, "New Workspace from Template", PaletteAction::OpenWorkspaceTemplates);
    push_plain(entries, "Delete Template", PaletteAction::DeleteTemplates);
    push_starting(entries, shortcuts, "Previous Workspace", Action::PreviousWorkspace);
    push_starting(entries, shortcuts, "Next Workspace", Action::NextWorkspace);
    push_starting(entries, shortcuts, "Cycle Previous Workspace", Action::PrevWorkspace);
    assert(entries.deep_view() =~= head + workspace_commands(shortcuts@));
}

/// Appends the commands for the dashboard and its views.
fn push_view_commands(entries: &mut Vec<PaletteEntry>)
    ensures
        final(entries).deep_view() == old(entries).deep_view() + view_commands(),
{
    let ghost head = entries.deep_view();
    push_plain(entries, "Open Dashboard", PaletteAction::OpenDashboard);
    push_plain(entries, "Save View: Agent Activity", PaletteAction::SaveView(ViewPreset::AgentActivity));
    push_plain(entries, "Save View: Workspace Health", PaletteAction::SaveView(ViewPreset::WorkspaceHealth));
    push_plain(entries, "Save View: Listening Ports", PaletteAction::SaveView(ViewPreset::ListeningPorts));
    push_plain(entries, "Save View: Recent Alerts", PaletteAction::SaveView(ViewPreset::RecentAlerts));
    push_plain(entries, "Save View: Currently Flagged Panes", PaletteAction::SaveView(ViewPreset::CurrentlyFlaggedPanes));
    push_plain(entries, "Save View: Failing Test Runs", PaletteAction::SaveView(ViewPreset::FailingTestRuns));
    push_plain(entries, "Open Saved View", PaletteAction::OpenSavedViews);
    push_plain(entries, "Delete Saved View", PaletteAction::DeleteSavedViews);
    assert(entries.deep_view() =~= head + view_commands());
}

/// Appends the commands for sessions and keys.
fn push_session_commands(entries: &mut Vec<PaletteEntry>)
    ensures
        final(entries).deep_view() == old(entries).deep_view() + session_commands(),
{
    let ghost head = entries.deep_view();
    push_plain(entries, "Detach Pane", PaletteAction::DetachPane);
    push_plain(entries, "Attach Session…", PaletteAction::AttachSession);
    push_plain(entries, "Keyboard Shortcuts", PaletteAction::OpenKeybindingHelp);
    assert(entries.deep_view() =~= head + session_commands());
}

/// The fixed commands, but for the jump to a tab that needs attention.
fn build_fixed_commands(shortcuts: &Shortcuts, tmux: &TmuxUiState, recent_lines: u64) -> (r: Vec<
    PaletteEntry,
>)
    ensures
        r.deep_view() == fixed_commands(shortcuts@, *tmux, recent_lines),
{
    let mut entries: Vec<PaletteEntry> = Vec::new();
    let ghost none = entries.deep_view();
    push_tab_commands(&mut entries, shortcuts, tmux, recent_lines);
    push_text_commands(&mut entries, shortcuts);
    push_pane_commands(&mut entries, shortcuts);
    push_workspace_commands(&mut entries, shortcuts);
    push_view_commands(&mut entries);
    push_session_commands(&mut entries);
    assert(none + tab_commands(shortcuts@, *tmux, recent_lines) =~= tab_commands(shortcuts@, *tmux, recent_lines));
    entries
}

/// The fixed commands: tabs, panes, workspaces, templates, views and sessions. The jump to
/// a tab that needs attention is the first where there is such a tab.
pub fn build_core_tab_entries(
    shortcuts: &Shortcuts,
    tmux: &TmuxUiState,
    recent_lines: u64,
    has_attention: bool,
) -> (r: Vec<PaletteEntry>)
    ensures
        r.deep_view() == core_entries(shortcuts@, *tmux, recent_lines, has_attention),
{
    let mut entries = build_fixed_commands(shortcuts, tmux, recent_lines);
    let ghost fixed = entries.deep_view();
    let jump = PaletteEntry {
        label: "Jump to Attention Tab".to_owned(),
        shortcut: shortcuts.label_for(Action::JumpAttention),
        action: PaletteAction::Activate(Action::JumpAttention),
    };
    let ghost shown = jump.deep_view();
    let at: usize = if has_attention {
        0
    } else {
        5
    };
    assert(fixed.len() == 39);
    entries.insert(at, jump);
    assert(entries.deep_view() =~= fixed.insert(at as int, shown));
    entries
}

/// What the commands are called, which keys are shown beside them, and what they do.
pub proof fn law_what_the_commands_do(
    keys: Seq<(Action, Seq<char>)>,
    tmux: TmuxUiState,
    recent_lines: u64,
)
    ensures
        core_entries(keys, tmux, recent_lines, false).len() == 40,
        core_entries(keys, tmux, recent_lines, false)[0] == (EntryView {
            label: "New Tab"@,
            shortcut: keybindings::shortcut_of(keys, Action::NewTab),
            action: ActionView::Activate(Action::NewTab),
        }),
        core_entries(keys, tmux, recent_lines, false)[1] == (EntryView {
            label: "Previous Tab"@,
            shortcut: keybindings::shortcut_of(keys, Action::PreviousTab),
            action: ActionView::Activate(Action::PreviousTab),
        }),
        core_entries(keys, tmux, recent_lines, false)[3] == (EntryView {
            label: "Search in Terminal"@,
            shortcut: keybindings::shortcut_of(keys, Action::SearchToggle),
            action: ActionView::Activate(Action::SearchToggle),
        }),
        core_entries(keys, tmux, recent_lines, false)[4] == (EntryView {
            label: "Toggle Right Dock"@,
            shortcut: keybindings::shortcut_of(keys, Action::ToggleDock),
            action: ActionView::Activate(Action::ToggleDock),
        }),
        core_entries(keys, tmux, recent_lines, false)[5] == (EntryView {
            label: "Jump to Attention Tab"@,
            shortcut: keybindings::shortcut_of(keys, Action::JumpAttention),
            action: ActionView::Activate(Action::JumpAttention),
        }),
        core_entries(keys, tmux, recent_lines, false)[6] == (EntryView {
            label: "Toggle Compact Sidebar"@,
            shortcut: keybindings::shortcut_of(keys, Action::ToggleSidebarCompact),
            action: ActionView::Activate(Action::ToggleSidebarCompact),
        }),
        core_entries(keys, tmux, recent_lines, false)[8] == (EntryView {
            label: "Send to Pane…"@,
            shortcut: keybindings::shortcut_of(keys, Action::SendToPane),
            action: ActionView::OpenSendToPane { last_output: false },
        }),
        core_entries(keys, tmux, recent_lines, false)[9] == (EntryView { label: "Send Last Output to Pane…"@, shortcut: None, action: ActionView::OpenSendToPane { last_output: true } }),
        core_entries(keys, tmux, recent_lines, false)[10] == (EntryView {
            label: "Copy Last Agent Message"@,
            shortcut: keybindings::shortcut_of(keys, Action::CopyLastMessage),
            action: ActionView::Activate(Action::CopyLastMessage),
        }),
        core_entries(keys, tmux, recent_lines, false)[11] == (EntryView { label: "Relay Last Message to Pane…"@, shortcut: None, action: ActionView::OpenRelayLastMessage }),
        core_entries(keys, tmux, recent_lines, false)[12] == (EntryView {
            label: "Clipboard History…"@,
            shortcut: keybindings::shortcut_of(keys, Action::ClipboardHistory),
            action: ActionView::OpenClipboardHistory,
        }),
        core_entries(keys, tmux, recent_lines, false)[13] == (EntryView {
            label: "Recent Files…"@,
            shortcut: keybindings::shortcut_of(keys, Action::RecentFiles),
            action: ActionView::OpenRecentFiles,
        }),
        core_entries(keys, tmux, recent_lines, false)[14] == (EntryView {
            label: "Workspace Inspector"@,
            shortcut: keybindings::shortcut_of(keys, Action::WorkspaceInspector),
            action: ActionView::Activate(Action::WorkspaceInspector),
        }),
        core_entries(keys, tmux, recent_lines, false)[15] == (EntryView {
            label: "Split Vertical"@,
            shortcut: keybindings::shortcut_of(keys, Action::SplitVertical),
            action: ActionView::Activate(Action::SplitVertical),
        }),
        core_entries(keys, tmux, recent_lines, false)[16] == (EntryView {
            label: "Split Horizontal"@,
            shortcut: keybindings::shortcut_of(keys, Action::SplitHorizontal),
            action: ActionView::Activate(Action::SplitHorizontal),
        }),
        core_entries(keys, tmux, recent_lines, false)[17] == (EntryView {
            label: "Close Pane"@,
            shortcut: keybindings::shortcut_of(keys, Action::ClosePane),
            action: ActionView::Activate(Action::ClosePane),
        }),
        core_entries(keys, tmux, recent_lines, false)[18] == (EntryView {
            label: "Toggle Pane Zoom"@,
            shortcut: keybindings::shortcut_of(keys, Action::TogglePaneZoom),
            action: ActionView::Activate(Action::TogglePaneZoom),
        }),
        core_entries(keys, tmux, recent_lines, false)[19] == (EntryView {
            label: "New Workspace"@,
            shortcut: keybindings::shortcut_of(keys, Action::NewWorkspace),
            action: ActionView::Activate(Action::NewWorkspace),
        }),
        core_entries(keys, tmux, recent_lines, false)[20] == (EntryView { label: "Save Current Tab as Template"@, shortcut: None, action: ActionView::SaveCurrentTabTemplate }),
        core_entries(keys, tmux, recent_lines, false)[21] == (EntryView { label: "Save Current Workspace as Template"@, shortcut: None, action: ActionView::SaveCurrentWorkspaceTemplate }),
        core_entries(keys, tmux, recent_lines, false)[22] == (EntryView { label: "New Tab from Template"@, shortcut: None, action: ActionView::OpenTabTemplates }),
        core_entries(keys, tmux, recent_lines, false)[23] == (EntryView { label: "New Workspace from Template"@, shortcut: None, action: ActionView::OpenWorkspaceTemplates }),
        core_entries(keys, tmux, recent_lines, false)[24] == (EntryView { label: "Delete Template"@, shortcut: None, action: ActionView::DeleteTemplates }),
        core_entries(keys, tmux, recent_lines, false)[25] == (EntryView {
            label: "Previous Workspace"@,
            shortcut: keybindings::shortcut_of(keys, Action::PreviousWorkspace),
            action: ActionView::Activate(Action::PreviousWorkspace),
        }),
        core_entries(keys, tmux, recent_lines, false)[26] == (EntryView {
            label: "Next Workspace"@,
            shortcut: keybindings::shortcut_of(keys, Action::NextWorkspace),
            action: ActionView::Activate(Action::NextWorkspace),
        }),
        core_entries(keys, tmux, recent_lines, false)[27] == (EntryView {
            label: "Cycle Previous Workspace"@,
            shortcut: keybindings::shortcut_of(keys, Action::PrevWorkspace),
            action: ActionView::Activate(Action::PrevWorkspace),
        }),
        core_entries(keys, tmux, recent_lines, false)[28] == (EntryView { label: "Open Dashboard"@, shortcut: None, action: ActionView::OpenDashboard }),
        core_entries(keys, tmux, recent_lines, false)[29] == (EntryView { label: "Save View: Agent Activity"@, shortcut: None, action: ActionView::SaveView(ViewPreset::AgentActivity) }),
        core_entries(keys, tmux, recent_lines, false)[30] == (EntryView { label: "Save View: Workspace Health"@, shortcut: None, action: ActionView::SaveView(ViewPreset::WorkspaceHealth) }),
        core_entries(keys, tmux, recent_lines, false)[31] == (EntryView { label: "Save View: Listening Ports"@, shortcut: None, action: ActionView::SaveView(ViewPreset::ListeningPorts) }),
        core_entries(keys, tmux, recent_lines, false)[32] == (EntryView { label: "Save View: Recent Alerts"@, shortcut: None, action: ActionView::SaveView(ViewPreset::RecentAlerts) }),
        core_entries(keys, tmux, recent_lines, false)[33] == (EntryView { label: "Save View: Currently Flagged Panes"@, shortcut: None, action: ActionView::SaveView(ViewPreset::CurrentlyFlaggedPanes) }),
        core_entries(keys, tmux, recent_lines, false)[34] == (EntryView { label: "Save View: Failing Test Runs"@, shortcut: None, action: ActionView::SaveView(ViewPreset::FailingTestRuns) }),
        core_entries(keys, tmux, recent_lines, false)[35] == (EntryView { label: "Open Saved View"@, shortcut: None, action: ActionView::OpenSavedViews }),
        core_entries(keys, tmux, recent_lines, false)[36] == (EntryView { label: "Delete Saved View"@, shortcut: None, action: ActionView::DeleteSavedViews }),
        core_entries(keys, tmux, recent_lines, false)[37] == (EntryView { label: "Detach Pane"@, shortcut: None, action: ActionView::DetachPane }),
        core_entries(keys, tmux, recent_lines, false)[38] == (EntryView { label: "Attach Session…"@, shortcut: None, action: ActionView::AttachSession }),
        core_entries(keys, tmux, recent_lines, false)[39] == (EntryView { label: "Keyboard Shortcuts"@, shortcut: None, action: ActionView::OpenKeybindingHelp }),
        core_entries(keys, tmux, recent_lines, false)[7] == (EntryView {
            label: "Copy Recent Output ("@ + text::decimal(recent_lines as nat) + " lines)"@,
            shortcut: keybindings::shortcut_of(keys, Action::CopyRecentOutput),
            action: ActionView::Activate(Action::CopyRecentOutput),
        }),
{
}

/// Where a tab needs attention, the jump to it is the first command; the others stay in their
/// order.
pub proof fn law_attention_comes_first(
    keys: Seq<(Action, Seq<char>)>,
    tmux: TmuxUiState,
    recent_lines: u64,
    i: int,
)
    ensures
        ({
            let calm = core_entries(keys, tmux, recent_lines, false);
            let urgent = core_entries(keys, tmux, recent_lines, true);
            &&& urgent.len() == calm.len()
            &&& urgent[0].action == ActionView::Activate(Action::JumpAttention)
            &&& urgent[0].label == "Jump to Attention Tab"@
            &&& 0 <= i < 5 ==> urgent[i + 1] == calm[i]
            &&& 5 < i < calm.len() ==> urgent[i] == calm[i]
        }),
{
}

/// A tmux tab can be opened where tmux is there; else the command says so, and choosing it
/// tells why not.
pub proof fn law_the_command_for_tmux_tabs(keys: Seq<(Action, Seq<char>)>, tmux: TmuxUiState)
    ensures
        tmux.available ==> tmux_tab_entry(keys, tmux).label == "New tmux-backed Tab…"@,
        !tmux.available ==> tmux_tab_entry(keys, tmux).label
            == "New tmux-backed Tab… (tmux unavailable)"@,
        tmux.unavailable_message matches Some(message) ==> tmux_tab_entry(keys, tmux).action
            == ActionView::ShowError(message@),
        tmux.unavailable_message is None ==> tmux_tab_entry(keys, tmux).action
            == ActionView::Activate(Action::NewTmuxTab),
        tmux_tab_entry(keys, tmux).shortcut == keybindings::shortcut_of(keys, Action::NewTmuxTab),
{
}

} // verus!
