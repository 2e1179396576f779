//! The list of each mode.

use vstd::prelude::*;
use vstd::string::*;
use crate::dashboard::{DashboardSession, DetachedSession};
use crate::palette::attach;
use crate::palette::attach::{build_attach_candidates, live_tab_backings};
use crate::palette::entry::{EntryView, PaletteEntry};
use crate::palette::files;
use crate::palette::files::{build_recent_files_entries, PaneTranscript};
use crate::palette::help;
use crate::palette::help::{build_keybinding_help_entries, EffectiveBinding};
use crate::palette::listing;
use crate::palette::listing::{build_entries, PaletteContext};
use crate::palette::pickers;
use crate::palette::pickers::{
    build_attach_session_entries, build_saved_view_entries, build_worktree_entries,
};
use crate::palette::records::SavedView;
use crate::palette::sending;
use crate::palette::sending::{
    build_clipboard_history_entries, build_send_to_pane_entries, send_source_label,
    send_target_panes, ClipboardEntry, PaneActivity, PaneAgentLabel,
};
use crate::palette::session::PaletteSession;
use crate::palette::templates;
use crate::palette::templates::{build_template_entries, TemplateMode, TemplateRecord};
use crate::palette::PaletteMode;
use crate::text::copy_optional_text;
use crate::workspace;
use crate::workspace::AppState;

verus! {

/// What the lists are made of, besides the state of the program.
pub struct PaletteLists {
    pub commands: PaletteContext,
    pub templates: Option<Result<Vec<TemplateRecord>, String>>,
    pub views: Option<Result<Vec<SavedView>, String>>,
    pub detached_sessions: Vec<DetachedSession>,
    pub dashboard_sessions: Vec<DashboardSession>,
    /// The titles of the categories of key bindings.
    pub binding_categories: Vec<String>,
    pub bindings: Vec<EffectiveBinding>,
    pub agents: Vec<PaneAgentLabel>,
    pub activities: Vec<PaneActivity>,
    pub clipboard: Vec<ClipboardEntry>,
    pub transcripts: Vec<PaneTranscript>,
}

/// The repository of the active workspace.
pub open spec fn repository_of(state: AppState) -> Option<Seq<char>> {
    match state.active_workspace_value() {
        Some(ws) => ws.repo_root.deep_view(),
        None => None,
    }
}

/// The repository of the active workspace.
pub fn active_repo_root(state: &AppState) -> (r: Option<String>)
    ensures
        r.deep_view() == repository_of(*state),
{
    match state.active_ws() {
        Some(ws) => copy_optional_text(&ws.repo_root),
        None => None,
    }
}

/// The list of the palette's mode.
pub open spec fn entries_for(
    session: PaletteSession,
    state: AppState,
    lists: PaletteLists,
) -> Seq<EntryView> {
    match session.mode {
        PaletteMode::Default => listing::command_entries(state, lists.commands),
        PaletteMode::WorktreeList | PaletteMode::WorktreeRemove => pickers::worktree_entries(
            session.mode,
            repository_of(state),
            session.worktrees.deep_view(),
        ),
        PaletteMode::TemplateTabList => templates::template_entries(
            TemplateMode::OpenTab,
            lists.templates,
        ),
        PaletteMode::TemplateWorkspaceList => templates::template_entries(
            TemplateMode::OpenWorkspace,
            lists.templates,
        ),
        PaletteMode::TemplateDeleteList => templates::template_entries(
            TemplateMode::Delete,
            lists.templates,
        ),
        PaletteMode::SavedViewList | PaletteMode::SavedViewDeleteList => pickers::saved_view_entries(
            session.mode,
            lists.views,
        ),
        PaletteMode::AttachSessionList => pickers::attach_entries(
            attach::rows_of(
                attach::reports(
                    lists.detached_sessions.deep_view(),
                    lists.dashboard_sessions.deep_view(),
                ),
                attach::live_backings(workspace::tabs_of(state.workspaces@)),
            ),
            lists.commands.tmux,
        ),
        PaletteMode::KeybindingHelp => help::help_entries(
            lists.binding_categories.deep_view(),
            lists.bindings.deep_view(),
        ),
        PaletteMode::SendToPane => sending::send_entries(
            sending::source_label(session.send_source.deep_view()),
            sending::send_targets(state, lists.agents@, lists.activities@),
        ),
        PaletteMode::ClipboardHistory => sending::history_entries(lists.clipboard@),
        PaletteMode::RecentFiles => files::file_entries(
            files::active_files(state, lists.transcripts@),
        ),
    }
}

/// The list of the palette's mode.
pub fn palette_entries(
    session: &PaletteSession,
    state: &AppState,
    lists: &PaletteLists,
) -> (r: Vec<PaletteEntry>)
    ensures
        r.deep_view() == entries_for(*session, *state, *lists),
{
    match session.mode {
        PaletteMode::Default => build_entries(state, &lists.commands),
        PaletteMode::WorktreeList | PaletteMode::WorktreeRemove => {
            let repo_root = active_repo_root(state);
            build_worktree_entries(session.mode, &repo_root, &session.worktrees)
        },
        PaletteMode::TemplateTabList => build_template_entries(
            TemplateMode::OpenTab,
            &lists.templates,
        ),
        PaletteMode::TemplateWorkspaceList => build_template_entries(
            TemplateMode::OpenWorkspace,
            &lists.templates,
        ),
        PaletteMode::TemplateDeleteList => build_template_entries(
            TemplateMode::Delete,
            &lists.templates,
        ),
        PaletteMode::SavedViewList | PaletteMode::SavedViewDeleteList => build_saved_view_entries(
            session.mode,
            &lists.views,
        ),
        PaletteMode::AttachSessionList => {
            let live = live_tab_backings(state);
            let candidates = build_attach_candidates(
                lists.detached_sessions.as_slice(),
                lists.dashboard_sessions.as_slice(),
                live.as_slice(),
            );
            build_attach_session_entries(candidates, &lists.commands.tmux)
        },
        PaletteMode::KeybindingHelp => build_keybinding_help_entries(
            &lists.binding_categories,
            &lists.bindings,
        ),
        PaletteMode::SendToPane => {
            let label = send_source_label(&session.send_source);
            let targets = send_target_panes(state, &lists.agents, &lists.activities);
            build_send_to_pane_entries(label.as_str(), &targets)
        },
        PaletteMode::ClipboardHistory => build_clipboard_history_entries(&lists.clipboard),
        PaletteMode::RecentFiles => build_recent_files_entries(state, &lists.transcripts),
    }
}

/// Every list but the commands begins with the way back to them.
pub proof fn law_every_other_list_has_a_way_back(
    session: PaletteSession,
    state: AppState,
    lists: PaletteLists,
)
    requires
        session.mode != PaletteMode::Default,
    ensures
        entries_for(session, state, lists).len() > 0,
        entries_for(session, state, lists)[0] == crate::palette::entry::back_entry(),
{
}

/// Each mode shows its own list.
pub proof fn law_each_mode_has_its_list(
    session: PaletteSession,
    state: AppState,
    lists: PaletteLists,
)
    ensures
        session.mode == PaletteMode::Default ==> entries_for(session, state, lists)
            == listing::command_entries(state, lists.commands),
        session.mode == PaletteMode::WorktreeList ==> entries_for(session, state, lists)
            == pickers::worktree_entries(
            PaletteMode::WorktreeList,
            repository_of(state),
            session.worktrees.deep_view(),
        ),
        session.mode == PaletteMode::WorktreeRemove ==> entries_for(session, state, lists)
            == pickers::worktree_entries(
            PaletteMode::WorktreeRemove,
            repository_of(state),
            session.worktrees.deep_view(),
        ),
        session.mode == PaletteMode::TemplateTabList ==> entries_for(session, state, lists)
            == templates::template_entries(TemplateMode::OpenTab, lists.templates),
        session.mode == PaletteMode::TemplateWorkspaceList ==> entries_for(session, state, lists)
            == templates::template_entries(TemplateMode::OpenWorkspace, lists.templates),
        session.mode == PaletteMode::TemplateDeleteList ==> entries_for(session, state, lists)
            == templates::template_entries(TemplateMode::Delete, lists.templates),
        session.mode == PaletteMode::SavedViewList ==> entries_for(session, state, lists)
            == pickers::saved_view_entries(PaletteMode::SavedViewList, lists.views),
        session.mode == PaletteMode::SavedViewDeleteList ==> entries_for(session, state, lists)
            == pickers::saved_view_entries(PaletteMode::SavedViewDeleteList, lists.views),
        session.mode == PaletteMode::KeybindingHelp ==> entries_for(session, state, lists)
            == help::help_entries(
            lists.binding_categories.deep_view(),
            lists.bindings.deep_view(),
        ),
        session.mode == PaletteMode::SendToPane ==> entries_for(session, state, lists)
            == sending::send_entries(
            sending::source_label(session.send_source.deep_view()),
            sending::send_targets(state, lists.agents@, lists.activities@),
        ),
        session.mode == PaletteMode::ClipboardHistory ==> entries_for(session, state, lists)
            == sending::history_entries(lists.clipboard@),
        session.mode == PaletteMode::RecentFiles ==> entries_for(session, state, lists)
            == files::file_entries(files::active_files(state, lists.transcripts@)),
        state.active_workspace_value() matches Some(ws) ==> repository_of(state)
            == ws.repo_root.deep_view(),
        state.active_workspace_value() is None ==> repository_of(state) is None,
{
}

} // verus!
