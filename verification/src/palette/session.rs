//! The palette while it is open: what it lists, and what choosing an entry does.

use vstd::prelude::*;
use vstd::string::*;
use crate::keybindings::Action;
use crate::mise::cache::TaskDiscoveryRequest;
use crate::palette::entry::{PaletteAction, PaletteEntry};
use crate::palette::records::{HostConfig, RegisteredProject, TemplateKind, ViewPreset};
use crate::palette::sending::{SendPayloadSource, SourceView};
use crate::palette::worktrees::{
    invalidate_worktree_listing_state, ListingView, WorktreeListingState,
};
use crate::palette::PaletteMode;
use crate::task_launch::TaskLaunchRequest;
use crate::tmux::TmuxTarget;

verus! {

/// The palette's state.
pub struct PaletteSession {
    pub visible: bool,
    pub mode: PaletteMode,
    /// What the user typed.
    pub query: String,
    /// The text to send to the pane that is being chosen.
    pub send_source: Option<SendPayloadSource>,
    pub worktrees: WorktreeListingState,
}

/// The mathematical value of a [`PaletteSession`].
pub struct SessionView {
    pub visible: bool,
    pub mode: PaletteMode,
    pub query: Seq<char>,
    pub send_source: Option<SourceView>,
    pub worktrees: ListingView,
}

impl DeepView for PaletteSession {
    type V = SessionView;

    open spec fn deep_view(&self) -> SessionView {
        SessionView {
            visible: self.visible,
            mode: self.mode,
            query: self.query@,
            send_source: self.send_source.deep_view(),
            worktrees: self.worktrees.deep_view(),
        }
    }
}

/// What the program does for an entry that was chosen.
pub enum PaletteEffect<'a> {
    /// Nothing: the palette lists something else, or the entry only informs.
    Nothing,
    Activate(Action),
    ShowError(&'a String),
    OpenProject(&'a RegisteredProject),
    ForgetProject(&'a RegisteredProject),
    ConnectHost(&'a HostConfig),
    FocusTab(u32),
    MoveCurrentTab(u32),
    DiscoverTasks,
    /// Runs the task in a tab of its own.
    LaunchTask(&'a TaskLaunchRequest),
    SaveTabTemplate,
    SaveWorkspaceTemplate,
    OpenTabTemplate(&'a String),
    OpenWorkspaceTemplate(&'a String),
    DeleteTemplate(TemplateKind, &'a String),
    CreateWorktree,
    OpenWorktree(&'a String),
    DeleteWorktree(&'a String, &'a String),
    OpenDashboard,
    SaveView(ViewPreset),
    OpenSavedView(&'a String),
    DeleteSavedView(&'a String),
    DetachPane,
    AttachSession(&'a String, &'a TmuxTarget),
    SendToPane { tab_id: u32, pane_id: u32, run: bool },
    CopyText(&'a String),
    PeekFile(&'a String),
}

/// The list that an entry leads to.
pub open spec fn next_mode(action: PaletteAction) -> Option<PaletteMode> {
    match action {
        PaletteAction::ResetMode => Some(PaletteMode::Default),
        PaletteAction::OpenTabTemplates => Some(PaletteMode::TemplateTabList),
        PaletteAction::OpenWorkspaceTemplates => Some(PaletteMode::TemplateWorkspaceList),
        PaletteAction::DeleteTemplates => Some(PaletteMode::TemplateDeleteList),
        PaletteAction::ListWorktrees => Some(PaletteMode::WorktreeList),
        PaletteAction::RemoveWorktree => Some(PaletteMode::WorktreeRemove),
        PaletteAction::OpenSavedViews => Some(PaletteMode::SavedViewList),
        PaletteAction::DeleteSavedViews => Some(PaletteMode::SavedViewDeleteList),
        PaletteAction::AttachSession => Some(PaletteMode::AttachSessionList),
        PaletteAction::OpenKeybindingHelp => Some(PaletteMode::KeybindingHelp),
        PaletteAction::OpenSendToPane { .. } => Some(PaletteMode::SendToPane),
        PaletteAction::OpenRelayLastMessage => Some(PaletteMode::SendToPane),
        PaletteAction::OpenSendToPaneWithText(_) => Some(PaletteMode::SendToPane),
        PaletteAction::OpenClipboardHistory => Some(PaletteMode::ClipboardHistory),
        PaletteAction::OpenRecentFiles => Some(PaletteMode::RecentFiles),
        _ => None,
    }
}

/// Whether the palette stays open.
pub open spec fn keeps_open(action: PaletteAction) -> bool {
    next_mode(action) is Some || action is Noop
}

/// The text to send, after an entry was chosen. `captured` is what was captured for it.
pub open spec fn next_source(
    action: PaletteAction,
    source: Option<SourceView>,
    captured: Option<SourceView>,
) -> Option<SourceView> {
    match action {
        PaletteAction::OpenSendToPane { .. } => captured,
        PaletteAction::OpenRelayLastMessage => captured,
        PaletteAction::OpenSendToPaneWithText(text) => Some(
            SourceView::SelectionOrClipboard { selection: Some(text@) },
        ),
        PaletteAction::OpenClipboardHistory => None,
        _ => source,
    }
}

/// What the program does for an entry.
pub open spec fn effect_of<'a>(action: &'a PaletteAction) -> PaletteEffect<'a> {
    match action {
        PaletteAction::Activate(action) => PaletteEffect::Activate(*action),
        PaletteAction::ShowError(message) => PaletteEffect::ShowError(message),
        PaletteAction::OpenProject(project) => PaletteEffect::OpenProject(project),
        PaletteAction::ForgetProject(project) => PaletteEffect::ForgetProject(project),
        PaletteAction::ConnectHost(host) => PaletteEffect::ConnectHost(host),
        PaletteAction::SwitchTab(id) => PaletteEffect::FocusTab(*id),
        PaletteAction::FocusTab(id) => PaletteEffect::FocusTab(*id),
        PaletteAction::MoveCurrentTabToWorkspace(id) => PaletteEffect::MoveCurrentTab(*id),
        PaletteAction::DiscoverTab => PaletteEffect::DiscoverTasks,
        PaletteAction::MiseTask(request) => PaletteEffect::LaunchTask(request),
        PaletteAction::MiseTaskInFocusedPane(request) => PaletteEffect::LaunchTask(request),
        PaletteAction::WorkspaceAction(request) => PaletteEffect::LaunchTask(request),
        PaletteAction::WorkspaceActionInFocusedPane(request) => PaletteEffect::LaunchTask(request),
        PaletteAction::SaveCurrentTabTemplate => PaletteEffect::SaveTabTemplate,
        PaletteAction::SaveCurrentWorkspaceTemplate => PaletteEffect::SaveWorkspaceTemplate,
        PaletteAction::OpenTabTemplate(name) => PaletteEffect::OpenTabTemplate(name),
        PaletteAction::OpenWorkspaceTemplate(name) => PaletteEffect::OpenWorkspaceTemplate(name),
        PaletteAction::DeleteTemplate(kind, name) => PaletteEffect::DeleteTemplate(*kind, name),
        PaletteAction::CreateWorktree => PaletteEffect::CreateWorktree,
        PaletteAction::OpenWorktree(path) => PaletteEffect::OpenWorktree(path),
        PaletteAction::DeleteWorktree(path, root) => PaletteEffect::DeleteWorktree(path, root),
        PaletteAction::OpenDashboard => PaletteEffect::OpenDashboard,
        PaletteAction::SaveView(preset) => PaletteEffect::SaveView(*preset),
        PaletteAction::OpenSavedView(name) => PaletteEffect::OpenSavedView(name),
        PaletteAction::DeleteSavedView(name) => PaletteEffect::DeleteSavedView(name),
        PaletteAction::DetachPane => PaletteEffect::DetachPane,
        PaletteAction::AttachSessionTarget {
            session_name,
            target,
        } => PaletteEffect::AttachSession(session_name, target),
        PaletteAction::SendToPane { tab_id, pane_id, run } => PaletteEffect::SendToPane {
            tab_id: *tab_id,
            pane_id: *pane_id,
            run: *run,
        },
        PaletteAction::CopyClipboardEntry(text) => PaletteEffect::CopyText(text),
        PaletteAction::OpenRecentFile(path) => PaletteEffect::PeekFile(path),
        _ => PaletteEffect::Nothing,
    }
}

impl SessionView {
    /// The state after an entry was chosen.
    pub open spec fn after(self, action: PaletteAction, captured: Option<SourceView>) -> SessionView {
        SessionView {
            visible: self.visible && keeps_open(action),
            mode: match next_mode(action) {
                Some(mode) => mode,
                None => self.mode,
            },
            query: if next_mode(action) is Some {
                Seq::empty()
            } else {
                self.query
            },
            send_source: next_source(action, self.send_source, captured),
            worktrees: if action is ListWorktrees || action is RemoveWorktree {
                self.worktrees.invalidated()
            } else {
                self.worktrees
            },
        }
    }

    /// The state of the palette that was opened on a list.
    pub open spec fn opened(self, mode: PaletteMode, source: Option<SourceView>) -> SessionView {
        SessionView {
            visible: true,
            mode,
            query: Seq::empty(),
            send_source: source,
            worktrees: self.worktrees,
        }
    }
}

/// What has to be captured before an entry is carried out.
#[derive(Clone, Copy, Debug, PartialEq, Eq, Structural)]
pub enum Capture {
    Nothing,
    Selection,
    RecentOutput,
    LastMessage,
}

/// What has to be captured before an entry is carried out.
pub fn capture_for(action: &PaletteAction) -> (r: Capture)
    ensures
        r == match *action {
            PaletteAction::OpenSendToPane { last_output: true } => Capture::RecentOutput,
            PaletteAction::OpenSendToPane { last_output: false } => Capture::Selection,
            PaletteAction::OpenRelayLastMessage => Capture::LastMessage,
            _ => Capture::Nothing,
        },
{
    match action {
        PaletteAction::OpenSendToPane { last_output } => {
            if *last_output {
                Capture::RecentOutput
            } else {
                Capture::Selection
            }
        },
        PaletteAction::OpenRelayLastMessage => Capture::LastMessage,
        _ => Capture::Nothing,
    }
}

/// What the program does for an entry.
fn effect_for<'a>(action: &'a PaletteAction) -> (r: PaletteEffect<'a>)
    ensures
        r == effect_of(action),
{
    match action {
        PaletteAction::Activate(action) => PaletteEffect::Activate(*action),
        PaletteAction::Noop => PaletteEffect::Nothing,
        PaletteAction::ShowError(message) => PaletteEffect::ShowError(message),
        PaletteAction::OpenProject(project) => PaletteEffect::OpenProject(project),
        PaletteAction::ForgetProject(project) => PaletteEffect::ForgetProject(project),
        PaletteAction::ConnectHost(host) => PaletteEffect::ConnectHost(host),
        PaletteAction::ResetMode => PaletteEffect::Nothing,
        PaletteAction::SwitchTab(id) => PaletteEffect::FocusTab(*id),
        PaletteAction::MoveCurrentTabToWorkspace(id) => PaletteEffect::MoveCurrentTab(*id),
        PaletteAction::DiscoverTab => PaletteEffect::DiscoverTasks,
        PaletteAction::MiseTask(request) => PaletteEffect::LaunchTask(request),
        PaletteAction::WorkspaceAction(request) => PaletteEffect::LaunchTask(request),
        PaletteAction::MiseTaskInFocusedPane(request) => PaletteEffect::LaunchTask(request),
        PaletteAction::WorkspaceActionInFocusedPane(request) => PaletteEffect::LaunchTask(request),
        PaletteAction::SaveCurrentTabTemplate => PaletteEffect::SaveTabTemplate,
        PaletteAction::SaveCurrentWorkspaceTemplate => PaletteEffect::SaveWorkspaceTemplate,
        PaletteAction::OpenTabTemplates => PaletteEffect::Nothing,
        PaletteAction::OpenWorkspaceTemplates => PaletteEffect::Nothing,
        PaletteAction::OpenTabTemplate(name) => PaletteEffect::OpenTabTemplate(name),
        PaletteAction::OpenWorkspaceTemplate(name) => PaletteEffect::OpenWorkspaceTemplate(name),
        PaletteAction::DeleteTemplates => PaletteEffect::Nothing,
        PaletteAction::DeleteTemplate(kind, name) => PaletteEffect::DeleteTemplate(*kind, name),
        PaletteAction::CreateWorktree => PaletteEffect::CreateWorktree,
        PaletteAction::ListWorktrees => PaletteEffect::Nothing,
        PaletteAction::RemoveWorktree => PaletteEffect::Nothing,
        PaletteAction::OpenWorktree(path) => PaletteEffect::OpenWorktree(path),
        PaletteAction::DeleteWorktree(path, root) => PaletteEffect::DeleteWorktree(path, root),
        PaletteAction::OpenDashboard => PaletteEffect::OpenDashboard,
        PaletteAction::SaveView(preset) => PaletteEffect::SaveView(*preset),
        PaletteAction::OpenSavedViews => PaletteEffect::Nothing,
        PaletteAction::OpenSavedView(name) => PaletteEffect::OpenSavedView(name),
        PaletteAction::DeleteSavedViews => PaletteEffect::Nothing,
        PaletteAction::DeleteSavedView(name) => PaletteEffect::DeleteSavedView(name),
        PaletteAction::DetachPane => PaletteEffect::DetachPane,
        PaletteAction::AttachSession => PaletteEffect::Nothing,
        PaletteAction::OpenKeybindingHelp => PaletteEffect::Nothing,
        PaletteAction::AttachSessionTarget {
            session_name,
            target,
        } => PaletteEffect::AttachSession(session_name, target),
        PaletteAction::FocusTab(id) => PaletteEffect::FocusTab(*id),
        PaletteAction::OpenSendToPane { .. } => PaletteEffect::Nothing,
        PaletteAction::OpenRelayLastMessage => PaletteEffect::Nothing,
        PaletteAction::SendToPane { tab_id, pane_id, run } => PaletteEffect::SendToPane {
            tab_id: *tab_id,
            pane_id: *pane_id,
            run: *run,
        },
        PaletteAction::OpenClipboardHistory => PaletteEffect::Nothing,
        PaletteAction::CopyClipboardEntry(text) => PaletteEffect::CopyText(text),
        PaletteAction::OpenSendToPaneWithText(_) => PaletteEffect::Nothing,
        PaletteAction::OpenRecentFiles => PaletteEffect::Nothing,
        PaletteAction::OpenRecentFile(path) => PaletteEffect::PeekFile(path),
    }
}

/// The list that an entry leads to.
fn mode_for(action: &PaletteAction) -> (r: Option<PaletteMode>)
    ensures
        r == next_mode(*action),
{
    match action {
        PaletteAction::ResetMode => Some(PaletteMode::Default),
        PaletteAction::OpenTabTemplates => Some(PaletteMode::TemplateTabList),
        PaletteAction::OpenWorkspaceTemplates => Some(PaletteMode::TemplateWorkspaceList),
        PaletteAction::DeleteTemplates => Some(PaletteMode::TemplateDeleteList),
        PaletteAction::ListWorktrees => Some(PaletteMode::WorktreeList),
        PaletteAction::RemoveWorktree => Some(PaletteMode::WorktreeRemove),
        PaletteAction::OpenSavedViews => Some(PaletteMode::SavedViewList),
        PaletteAction::DeleteSavedViews => Some(PaletteMode::SavedViewDeleteList),
        PaletteAction::AttachSession => Some(PaletteMode::AttachSessionList),
        PaletteAction::OpenKeybindingHelp => Some(PaletteMode::KeybindingHelp),
        PaletteAction::OpenSendToPane { .. } => Some(PaletteMode::SendToPane),
        PaletteAction::OpenRelayLastMessage => Some(PaletteMode::SendToPane),
        PaletteAction::OpenSendToPaneWithText(_) => Some(PaletteMode::SendToPane),
        PaletteAction::OpenClipboardHistory => Some(PaletteMode::ClipboardHistory),
        PaletteAction::OpenRecentFiles => Some(PaletteMode::RecentFiles),
        _ => None,
    }
}

/// What gets the keyboard after an entry was chosen.
#[derive(Clone, Copy, Debug, PartialEq, Eq, Structural)]
pub enum FocusAfter {
    /// The palette's text field: the palette stays open.
    Query,
    /// The terminal of the active tab: the palette is closed.
    Terminal,
}

impl PaletteSession {
    /// Carries out an entry: the palette lists something else, or the program does what
    /// the result says. Says whether the palette stays open. `captured` is what was
    /// captured for the entry.
    pub fn execute_action<'a>(
        &mut self,
        action: &'a PaletteAction,
        captured: Option<SendPayloadSource>,
    ) -> (r: (PaletteEffect<'a>, bool))
        ensures
            r.0 == effect_of(action),
            r.1 == keeps_open(*action),
            final(self).deep_view() == (SessionView {
                visible: old(self).visible,
                ..old(self).deep_view().after(*action, captured.deep_view())
            }),
    {
        let effect = effect_for(action);
        match action {
            PaletteAction::ListWorktrees | PaletteAction::RemoveWorktree => {
                invalidate_worktree_listing_state(&mut self.worktrees);
            },
            PaletteAction::OpenSendToPane { .. } | PaletteAction::OpenRelayLastMessage => {
                self.send_source = captured;
            },
            PaletteAction::OpenSendToPaneWithText(text) => {
                self.send_source = Some(
                    SendPayloadSource::SelectionOrClipboard { selection: Some(text.clone()) },
                );
            },
            PaletteAction::OpenClipboardHistory => {
                self.send_source = None;
            },
            _ => {},
        }
        match mode_for(action) {
            Some(mode) => {
                self.mode = mode;
                self.query = String::new();
                assert(self.query@ =~= Seq::<char>::empty());
                (effect, true)
            },
            None => {
                let inert = match action {
                    PaletteAction::Noop => true,
                    _ => false,
                };
                (effect, inert)
            },
        }
    }

    /// Carries out the entry of the chosen row, and closes the palette unless the entry
    /// keeps it open. A row without an entry closes it too.
    pub fn activate_palette_row<'a>(
        &mut self,
        selected: Option<&'a PaletteEntry>,
        captured: Option<SendPayloadSource>,
    ) -> (r: (PaletteEffect<'a>, FocusAfter))
        ensures
            match selected {
                Some(entry) => {
                    &&& r.0 == effect_of(&entry.action)
                    &&& r.1 == if keeps_open(entry.action) {
                        FocusAfter::Query
                    } else {
                        FocusAfter::Terminal
                    }
                    &&& final(self).deep_view() == old(self).deep_view().after(
                        entry.action,
                        captured.deep_view(),
                    )
                },
                None => {
                    &&& r.0 is Nothing
                    &&& r.1 == FocusAfter::Terminal
                    &&& final(self).deep_view() == (SessionView {
                        visible: false,
                        ..old(self).deep_view()
                    })
                },
            },
    {
        match selected {
            Some(entry) => {
                let (effect, keep_open) = self.execute_action(&entry.action, captured);
                if keep_open {
                    (effect, FocusAfter::Query)
                } else {
                    self.visible = false;
                    (effect, FocusAfter::Terminal)
                }
            },
            None => {
                self.visible = false;
                (PaletteEffect::Nothing, FocusAfter::Terminal)
            },
        }
    }

    /// Opens the palette on a list.
    fn open_on(&mut self, mode: PaletteMode, source: Option<SendPayloadSource>)
        ensures
            final(self).deep_view() == old(self).deep_view().opened(mode, source.deep_view()),
    {
        self.visible = true;
        self.mode = mode;
        self.query = String::new();
        assert(self.query@ =~= Seq::<char>::empty());
        self.send_source = source;
    }

    /// Opens the palette on the commands.
    pub fn show_palette(&mut self)
        ensures
            final(self).deep_view() == old(self).deep_view().opened(PaletteMode::Default, None),
    {
        self.open_on(PaletteMode::Default, None);
    }

    /// Opens the palette on the key bindings.
    pub fn show_keybinding_help(&mut self)
        ensures
            final(self).deep_view() == old(self).deep_view().opened(
                PaletteMode::KeybindingHelp,
                None,
            ),
    {
        self.open_on(PaletteMode::KeybindingHelp, None);
    }

    /// Opens the palette to ask for the pane that gets a text.
    pub fn open_send_to_pane_picker(&mut self, source: Option<SendPayloadSource>)
        ensures
            final(self).deep_view() == old(self).deep_view().opened(
                PaletteMode::SendToPane,
                source.deep_view(),
            ),
    {
        self.open_on(PaletteMode::SendToPane, source);
    }

    /// Opens the palette to ask for the pane that gets the last message of an agent.
    pub fn open_relay_last_message_picker(&mut self, source: SendPayloadSource)
        ensures
            final(self).deep_view() == old(self).deep_view().opened(
                PaletteMode::SendToPane,
                Some(source.deep_view()),
            ),
    {
        self.open_on(PaletteMode::SendToPane, Some(source));
    }

    /// Opens the palette on the clipboard's history.
    pub fn open_clipboard_history_picker(&mut self)
        ensures
            final(self).deep_view() == old(self).deep_view().opened(
                PaletteMode::ClipboardHistory,
                None,
            ),
    {
        self.open_on(PaletteMode::ClipboardHistory, None);
    }

    /// Opens the palette on the recent files.
    pub fn open_recent_files_picker(&mut self)
        ensures
            final(self).deep_view() == old(self).deep_view().opened(PaletteMode::RecentFiles, None),
    {
        self.open_on(PaletteMode::RecentFiles, None);
    }
}

/// The older name of a task's entry does the same as the newer one.
pub proof fn law_older_names_do_the_same(request: TaskLaunchRequest)
    ensures
        effect_of(&PaletteAction::MiseTaskInFocusedPane(request)) == effect_of(
            &PaletteAction::MiseTask(request),
        ),
        effect_of(&PaletteAction::WorkspaceActionInFocusedPane(request)) == effect_of(
            &PaletteAction::WorkspaceAction(request),
        ),
        effect_of(&PaletteAction::MiseTask(request)) is LaunchTask,
        effect_of(&PaletteAction::WorkspaceAction(request)) is LaunchTask,
{
}

/// The palette stays open exactly where the program has nothing to do.
pub proof fn law_the_palette_closes_where_something_is_done(action: PaletteAction)
    ensures
        keeps_open(action) <==> effect_of(&action) is Nothing,
{
}

/// Wherever the palette is, the way back leads to the commands with an empty query, and
/// keeps it open.
pub proof fn law_the_way_back_leads_to_the_commands(
    session: SessionView,
    captured: Option<SourceView>,
)
    ensures
        session.after(PaletteAction::ResetMode, captured) == (SessionView {
            mode: PaletteMode::Default,
            query: Seq::empty(),
            ..session
        }),
{
}

/// The row that is selected after a key that moves down or up; the ends stay where they
/// are.
pub fn moved_selection(selected: Option<i32>, row_count: i32, down: bool) -> (r: Option<i32>)
    ensures
        r == match selected {
            None => None,
            Some(row) => if down && row < row_count - 1 {
                Some((row + 1) as i32)
            } else if !down && row > 0 && row <= row_count {
                Some((row - 1) as i32)
            } else {
                Some(row)
            },
        },
{
    match selected {
        None => None,
        Some(row) => {
            if down {
                if row < i32::MAX && row + 1 < row_count {
                    Some(row + 1)
                } else {
                    Some(row)
                }
            } else if row > 0 && row <= row_count {
                Some(row - 1)
            } else {
                Some(row)
            }
        },
    }
}

/// Whether the palette looks again for the tasks that are being discovered: it lists
/// the commands, the active tab has a place for tasks, and their discovery is not done.
/// `request` is how that discovery was asked for.
pub fn polls_task_discovery(mode: PaletteMode, request: Option<TaskDiscoveryRequest>) -> (r: bool)
    ensures
        r == (mode == PaletteMode::Default && (request == Some(TaskDiscoveryRequest::Pending)
            || request == Some(TaskDiscoveryRequest::Start))),
{
    if mode != PaletteMode::Default {
        return false;
    }
    match request {
        None => false,
        Some(TaskDiscoveryRequest::UseCached) => false,
        Some(TaskDiscoveryRequest::Pending) => true,
        Some(TaskDiscoveryRequest::Start) => true,
    }
}

/// Whether a look for discovered tasks lists the entries anew.
pub open spec fn poll_lists_anew(visible: bool, mode: PaletteMode) -> bool {
    visible && mode == PaletteMode::Default
}

/// Whether a look for discovered tasks lists the entries anew, and whether another look
/// follows: while the commands are listed, until nothing is under way.
pub fn poll_step(visible: bool, mode: PaletteMode, pending: bool) -> (r: (bool, bool))
    ensures
        r.0 == poll_lists_anew(visible, mode),
        r.1 == (poll_lists_anew(visible, mode) && pending),
{
    if !visible || mode != PaletteMode::Default {
        (false, false)
    } else {
        (true, pending)
    }
}

/// Whether the entries are listed anew when an answer to a request for worktrees has come:
/// an answer that was dropped leaves a new request to be made.
pub fn relists_after_worktree_answer(applied: bool, visible: bool, mode: PaletteMode) -> (r: bool)
    ensures
        r == (visible && (!applied || mode == PaletteMode::WorktreeList || mode
            == PaletteMode::WorktreeRemove)),
{
    visible && (!applied || mode == PaletteMode::WorktreeList || mode
        == PaletteMode::WorktreeRemove)
}

/// Where each choice leads: the lists open their own mode, and everything else leaves the mode
/// as it is.
pub proof fn law_where_choices_lead(action: PaletteAction)
    ensures
        next_mode(PaletteAction::ResetMode) == Some(PaletteMode::Default),
        next_mode(PaletteAction::OpenTabTemplates) == Some(PaletteMode::TemplateTabList),
        next_mode(PaletteAction::OpenWorkspaceTemplates) == Some(
            PaletteMode::TemplateWorkspaceList,
        ),
        next_mode(PaletteAction::DeleteTemplates) == Some(PaletteMode::TemplateDeleteList),
        next_mode(PaletteAction::ListWorktrees) == Some(PaletteMode::WorktreeList),
        next_mode(PaletteAction::RemoveWorktree) == Some(PaletteMode::WorktreeRemove),
        next_mode(PaletteAction::OpenSavedViews) == Some(PaletteMode::SavedViewList),
        next_mode(PaletteAction::DeleteSavedViews) == Some(PaletteMode::SavedViewDeleteList),
        next_mode(PaletteAction::AttachSession) == Some(PaletteMode::AttachSessionList),
        next_mode(PaletteAction::OpenKeybindingHelp) == Some(PaletteMode::KeybindingHelp),
        next_mode(PaletteAction::OpenRelayLastMessage) == Some(PaletteMode::SendToPane),
        next_mode(PaletteAction::OpenClipboardHistory) == Some(PaletteMode::ClipboardHistory),
        next_mode(PaletteAction::OpenRecentFiles) == Some(PaletteMode::RecentFiles),
        action is OpenSendToPane || action is OpenSendToPaneWithText ==> next_mode(action) == Some(
            PaletteMode::SendToPane,
        ),
        action is Activate || action is OpenProject || action is SwitchTab || action is FocusTab
            || action is OpenWorktree || action is DeleteWorktree || action is SendToPane || action
            is MiseTask || action is OpenRecentFile || action is Noop ==> next_mode(action) is None,
        action is Noop ==> keeps_open(action),
        action is Activate || action is SwitchTab || action is SendToPane || action is OpenProject
            ==> !keeps_open(action),
{
}

/// What each choice does is what its entry names, with what the entry holds.
pub proof fn law_what_choices_do(
    id: u32,
    other: u32,
    run: bool,
    text: String,
    more: String,
    kind: TemplateKind,
    preset: ViewPreset,
    target: TmuxTarget,
    action: Action,
    project: RegisteredProject,
    host: HostConfig,
)
    ensures
        effect_of(&PaletteAction::Activate(action)) == PaletteEffect::Activate(action),
        effect_of(&PaletteAction::ShowError(text)) == PaletteEffect::ShowError(&text),
        effect_of(&PaletteAction::OpenProject(project)) == PaletteEffect::OpenProject(&project),
        effect_of(&PaletteAction::ForgetProject(project)) == PaletteEffect::ForgetProject(&project),
        effect_of(&PaletteAction::ConnectHost(host)) == PaletteEffect::ConnectHost(&host),
        effect_of(&PaletteAction::SwitchTab(id)) == PaletteEffect::FocusTab(id),
        effect_of(&PaletteAction::FocusTab(id)) == PaletteEffect::FocusTab(id),
        effect_of(&PaletteAction::MoveCurrentTabToWorkspace(id)) == PaletteEffect::MoveCurrentTab(
            id,
        ),
        effect_of(&PaletteAction::DiscoverTab) is DiscoverTasks,
        effect_of(&PaletteAction::SaveCurrentTabTemplate) is SaveTabTemplate,
        effect_of(&PaletteAction::SaveCurrentWorkspaceTemplate) is SaveWorkspaceTemplate,
        effect_of(&PaletteAction::OpenTabTemplate(text)) == PaletteEffect::OpenTabTemplate(&text),
        effect_of(&PaletteAction::OpenWorkspaceTemplate(text))
            == PaletteEffect::OpenWorkspaceTemplate(&text),
        effect_of(&PaletteAction::DeleteTemplate(kind, text)) == PaletteEffect::DeleteTemplate(
            kind,
            &text,
        ),
        effect_of(&PaletteAction::CreateWorktree) is CreateWorktree,
        effect_of(&PaletteAction::OpenWorktree(text)) == PaletteEffect::OpenWorktree(&text),
        effect_of(&PaletteAction::DeleteWorktree(text, more)) == PaletteEffect::DeleteWorktree(
            &text,
            &more,
        ),
        effect_of(&PaletteAction::OpenDashboard) is OpenDashboard,
        effect_of(&PaletteAction::SaveView(preset)) == PaletteEffect::SaveView(preset),
        effect_of(&PaletteAction::OpenSavedView(text)) == PaletteEffect::OpenSavedView(&text),
        effect_of(&PaletteAction::DeleteSavedView(text)) == PaletteEffect::DeleteSavedView(&text),
        effect_of(&PaletteAction::DetachPane) is DetachPane,
        effect_of(&PaletteAction::AttachSessionTarget { session_name: text, target })
            == PaletteEffect::AttachSession(&text, &target),
        effect_of(&PaletteAction::SendToPane { tab_id: id, pane_id: other, run }) == (
        PaletteEffect::SendToPane { tab_id: id, pane_id: other, run }),
        effect_of(&PaletteAction::CopyClipboardEntry(text)) == PaletteEffect::CopyText(&text),
        effect_of(&PaletteAction::OpenRecentFile(text)) == PaletteEffect::PeekFile(&text),
        effect_of(&PaletteAction::Noop) is Nothing,
        effect_of(&PaletteAction::ResetMode) is Nothing,
{
}

/// What is to be sent is captured when sending is chosen, taken from the history where a text
/// of it is chosen, and forgotten when the history opens; nothing else changes it.
pub proof fn law_what_is_to_be_sent(
    action: PaletteAction,
    text: String,
    last_output: bool,
    source: Option<SourceView>,
    captured: Option<SourceView>,
)
    ensures
        next_source(PaletteAction::OpenSendToPane { last_output }, source, captured) == captured,
        next_source(PaletteAction::OpenRelayLastMessage, source, captured) == captured,
        next_source(PaletteAction::OpenSendToPaneWithText(text), source, captured) == Some(
            SourceView::SelectionOrClipboard { selection: Some(text@) },
        ),
        next_source(PaletteAction::OpenClipboardHistory, source, captured) is None,
        action is SendToPane || action is ResetMode || action is OpenRecentFiles || action is Noop
            || action is OpenTabTemplates ==> next_source(action, source, captured) == source,
{
}

/// A choice that opens a list clears the query; one that does something closes the palette and
/// leaves the query. The lists of worktrees are read anew when they are opened.
pub proof fn law_the_palette_after_a_choice(
    session: SessionView,
    action: PaletteAction,
    captured: Option<SourceView>,
)
    ensures
        ({
            let after = session.after(action, captured);
            &&& next_mode(action) matches Some(mode) ==> after.mode == next_mode(action)->0
                && after.query.len() == 0 && after.visible == session.visible
            &&& next_mode(action) is None ==> after.mode == session.mode && after.query
                == session.query
            &&& !keeps_open(action) ==> !after.visible
            &&& action is ListWorktrees || action is RemoveWorktree ==> after.worktrees
                == session.worktrees.invalidated()
            &&& !(action is ListWorktrees || action is RemoveWorktree) ==> after.worktrees
                == session.worktrees
            &&& after.send_source == next_source(action, session.send_source, captured)
        }),
{
}

/// The palette opens in the mode that was asked for, without a query.
pub proof fn law_the_palette_opens(
    session: SessionView,
    mode: PaletteMode,
    source: Option<SourceView>,
)
    ensures
        session.opened(mode, source).visible,
        session.opened(mode, source).mode == mode,
        session.opened(mode, source).query.len() == 0,
        session.opened(mode, source).send_source == source,
        session.opened(mode, source).worktrees == session.worktrees,
        poll_lists_anew(true, PaletteMode::Default),
        !poll_lists_anew(false, mode),
        mode != PaletteMode::Default ==> !poll_lists_anew(true, mode),
{
}

} // verus!
