//! Entries of the palette and the search in them.

use vstd::prelude::*;
use vstd::string::*;
use crate::keybindings::Action;
use crate::palette::records::{
    HostConfig, HostView, ProjectView, RegisteredProject, TemplateKind, ViewPreset,
};
use crate::task_launch::{RequestView, TaskLaunchRequest};
use crate::text;
use crate::text::contains_text;
use crate::tmux::{TmuxTarget, TmuxTargetView};

verus! {

/// What choosing an entry does.
pub enum PaletteAction {
    /// Starts an action of the window.
    Activate(Action),
    Noop,
    ShowError(String),
    OpenProject(RegisteredProject),
    ForgetProject(RegisteredProject),
    /// Opens a tab with a tmux session on the host.
    ConnectHost(HostConfig),
    SwitchTab(u32),
    MoveCurrentTabToWorkspace(u32),
    MiseTask(TaskLaunchRequest),
    /// An older name of [`PaletteAction::MiseTask`].
    MiseTaskInFocusedPane(TaskLaunchRequest),
    WorkspaceAction(TaskLaunchRequest),
    /// An older name of [`PaletteAction::WorkspaceAction`].
    WorkspaceActionInFocusedPane(TaskLaunchRequest),
    SaveCurrentTabTemplate,
    SaveCurrentWorkspaceTemplate,
    OpenTabTemplates,
    OpenWorkspaceTemplates,
    OpenTabTemplate(String),
    OpenWorkspaceTemplate(String),
    DeleteTemplates,
    DeleteTemplate(TemplateKind, String),
    CreateWorktree,
    ListWorktrees,
    RemoveWorktree,
    OpenWorktree(String),
    /// Removes a worktree of a repository.
    DeleteWorktree(String, String),
    /// Goes back to the commands.
    ResetMode,
    DiscoverTab,
    OpenDashboard,
    SaveView(ViewPreset),
    OpenSavedViews,
    OpenSavedView(String),
    DeleteSavedViews,
    DeleteSavedView(String),
    DetachPane,
    AttachSession,
    OpenKeybindingHelp,
    AttachSessionTarget { session_name: String, target: TmuxTarget },
    FocusTab(u32),
    /// Asks for the pane that gets the selection, or the active pane's recent output.
    OpenSendToPane { last_output: bool },
    /// Delivers the captured text; `run` ends it with a new line.
    SendToPane { tab_id: u32, pane_id: u32, run: bool },
    OpenClipboardHistory,
    CopyClipboardEntry(String),
    OpenSendToPaneWithText(String),
    /// Asks for the pane that gets the last message of the active pane's agent.
    OpenRelayLastMessage,
    OpenRecentFiles,
    OpenRecentFile(String),
}

/// The mathematical value of a [`PaletteAction`].
pub enum ActionView {
    Activate(Action),
    Noop,
    ShowError(Seq<char>),
    OpenProject(ProjectView),
    ForgetProject(ProjectView),
    ConnectHost(HostView),
    SwitchTab(u32),
    MoveCurrentTabToWorkspace(u32),
    MiseTask(RequestView),
    MiseTaskInFocusedPane(RequestView),
    WorkspaceAction(RequestView),
    WorkspaceActionInFocusedPane(RequestView),
    SaveCurrentTabTemplate,
    SaveCurrentWorkspaceTemplate,
    OpenTabTemplates,
    OpenWorkspaceTemplates,
    OpenTabTemplate(Seq<char>),
    OpenWorkspaceTemplate(Seq<char>),
    DeleteTemplates,
    DeleteTemplate(TemplateKind, Seq<char>),
    CreateWorktree,
    ListWorktrees,
    RemoveWorktree,
    OpenWorktree(Seq<char>),
    DeleteWorktree(Seq<char>, Seq<char>),
    ResetMode,
    DiscoverTab,
    OpenDashboard,
    SaveView(ViewPreset),
    OpenSavedViews,
    OpenSavedView(Seq<char>),
    DeleteSavedViews,
    DeleteSavedView(Seq<char>),
    DetachPane,
    AttachSession,
    OpenKeybindingHelp,
    AttachSessionTarget { session_name: Seq<char>, target: TmuxTargetView },
    FocusTab(u32),
    OpenSendToPane { last_output: bool },
    SendToPane { tab_id: u32, pane_id: u32, run: bool },
    OpenClipboardHistory,
    CopyClipboardEntry(Seq<char>),
    OpenSendToPaneWithText(Seq<char>),
    OpenRelayLastMessage,
    OpenRecentFiles,
    OpenRecentFile(Seq<char>),
}

impl DeepView for PaletteAction {
    type V = ActionView;

    open spec fn deep_view(&self) -> ActionView {
        match self {
            PaletteAction::Activate(action) => ActionView::Activate(*action),
            PaletteAction::Noop => ActionView::Noop,
            PaletteAction::ShowError(message) => ActionView::ShowError(message@),
            PaletteAction::OpenProject(project) => ActionView::OpenProject(project.deep_view()),
            PaletteAction::ForgetProject(project) => ActionView::ForgetProject(project.deep_view()),
            PaletteAction::ConnectHost(host) => ActionView::ConnectHost(host.deep_view()),
            PaletteAction::SwitchTab(id) => ActionView::SwitchTab(*id),
            PaletteAction::MoveCurrentTabToWorkspace(id) => ActionView::MoveCurrentTabToWorkspace(
                *id,
            ),
            PaletteAction::MiseTask(request) => ActionView::MiseTask(request.deep_view()),
            PaletteAction::MiseTaskInFocusedPane(request) => ActionView::MiseTaskInFocusedPane(
                request.deep_view(),
            ),
            PaletteAction::WorkspaceAction(request) => ActionView::WorkspaceAction(
                request.deep_view(),
            ),
            PaletteAction::WorkspaceActionInFocusedPane(
                request,
            ) => ActionView::WorkspaceActionInFocusedPane(request.deep_view()),
            PaletteAction::SaveCurrentTabTemplate => ActionView::SaveCurrentTabTemplate,
            PaletteAction::SaveCurrentWorkspaceTemplate => ActionView::SaveCurrentWorkspaceTemplate,
            PaletteAction::OpenTabTemplates => ActionView::OpenTabTemplates,
            PaletteAction::OpenWorkspaceTemplates => ActionView::OpenWorkspaceTemplates,
            PaletteAction::OpenTabTemplate(name) => ActionView::OpenTabTemplate(name@),
            PaletteAction::OpenWorkspaceTemplate(name) => ActionView::OpenWorkspaceTemplate(name@),
            PaletteAction::DeleteTemplates => ActionView::DeleteTemplates,
            PaletteAction::DeleteTemplate(kind, name) => ActionView::DeleteTemplate(*kind, name@),
            PaletteAction::CreateWorktree => ActionView::CreateWorktree,
            PaletteAction::ListWorktrees => ActionView::ListWorktrees,
            PaletteAction::RemoveWorktree => ActionView::RemoveWorktree,
            PaletteAction::OpenWorktree(path) => ActionView::OpenWorktree(path@),
            PaletteAction::DeleteWorktree(path, root) => ActionView::DeleteWorktree(path@, root@),
            PaletteAction::ResetMode => ActionView::ResetMode,
            PaletteAction::DiscoverTab => ActionView::DiscoverTab,
            PaletteAction::OpenDashboard => ActionView::OpenDashboard,
            PaletteAction::SaveView(preset) => ActionView::SaveView(*preset),
            PaletteAction::OpenSavedViews => ActionView::OpenSavedViews,
            PaletteAction::OpenSavedView(name) => ActionView::OpenSavedView(name@),
            PaletteAction::DeleteSavedViews => ActionView::DeleteSavedViews,
            PaletteAction::DeleteSavedView(name) => ActionView::DeleteSavedView(name@),
            PaletteAction::DetachPane => ActionView::DetachPane,
            PaletteAction::AttachSession => ActionView::AttachSession,
            PaletteAction::OpenKeybindingHelp => ActionView::OpenKeybindingHelp,
            PaletteAction::AttachSessionTarget {
                session_name,
                target,
            } => ActionView::AttachSessionTarget {
                session_name: session_name@,
                target: target.deep_view(),
            },
            PaletteAction::FocusTab(id) => ActionView::FocusTab(*id),
            PaletteAction::OpenSendToPane { last_output } => ActionView::OpenSendToPane {
                last_output: *last_output,
            },
            PaletteAction::SendToPane { tab_id, pane_id, run } => ActionView::SendToPane {
                tab_id: *tab_id,
                pane_id: *pane_id,
                run: *run,
            },
            PaletteAction::OpenClipboardHistory => ActionView::OpenClipboardHistory,
            PaletteAction::CopyClipboardEntry(text) => ActionView::CopyClipboardEntry(text@),
            PaletteAction::OpenSendToPaneWithText(text) => ActionView::OpenSendToPaneWithText(
                text@,
            ),
            PaletteAction::OpenRelayLastMessage => ActionView::OpenRelayLastMessage,
            PaletteAction::OpenRecentFiles => ActionView::OpenRecentFiles,
            PaletteAction::OpenRecentFile(path) => ActionView::OpenRecentFile(path@),
        }
    }
}

impl ActionView {
    /// Whether the entry is found by a search only.
    pub open spec fn search_only(self) -> bool {
        self is MiseTaskInFocusedPane || self is WorkspaceActionInFocusedPane
    }

    /// The task that the action runs.
    pub open spec fn task(self) -> Option<RequestView> {
        match self {
            ActionView::MiseTask(request) => Some(request),
            ActionView::MiseTaskInFocusedPane(request) => Some(request),
            ActionView::WorkspaceAction(request) => Some(request),
            ActionView::WorkspaceActionInFocusedPane(request) => Some(request),
            _ => None,
        }
    }
}

/// Where a task runs.
#[derive(Clone, Copy, Debug, PartialEq, Eq, Structural)]
pub enum MiseDispatchMode {
    OpenNewTab,
}

impl PaletteAction {
    /// Whether the entry is found by a search only.
    pub fn is_search_only(&self) -> (r: bool)
        ensures
            r == self.deep_view().search_only(),
    {
        match self {
            PaletteAction::MiseTaskInFocusedPane(_) => true,
            PaletteAction::WorkspaceActionInFocusedPane(_) => true,
            _ => false,
        }
    }

    /// Where the task of the action runs: always in a tab of its own.
    pub fn mise_dispatch_mode(&self) -> (r: Option<MiseDispatchMode>)
        ensures
            r == match self.deep_view().task() {
                Some(_) => Some(MiseDispatchMode::OpenNewTab),
                None => None,
            },
    {
        match self {
            PaletteAction::MiseTask(_) => Some(MiseDispatchMode::OpenNewTab),
            PaletteAction::WorkspaceAction(_) => Some(MiseDispatchMode::OpenNewTab),
            PaletteAction::MiseTaskInFocusedPane(_) => Some(MiseDispatchMode::OpenNewTab),
            PaletteAction::WorkspaceActionInFocusedPane(_) => Some(MiseDispatchMode::OpenNewTab),
            _ => None,
        }
    }
}

/// An entry of the palette.
pub struct PaletteEntry {
    pub label: String,
    /// The keys that do the same, or another short remark.
    pub shortcut: Option<String>,
    pub action: PaletteAction,
}

/// The mathematical value of a [`PaletteEntry`].
pub struct EntryView {
    pub label: Seq<char>,
    pub shortcut: Option<Seq<char>>,
    pub action: ActionView,
}

impl DeepView for PaletteEntry {
    type V = EntryView;

    open spec fn deep_view(&self) -> EntryView {
        EntryView {
            label: self.label@,
            shortcut: self.shortcut.deep_view(),
            action: self.action.deep_view(),
        }
    }
}

/// An entry without a shortcut.
pub open spec fn plain(label: Seq<char>, action: ActionView) -> EntryView {
    EntryView { label, shortcut: None, action }
}

/// Appends an entry.
pub(crate) fn push_entry(
    entries: &mut Vec<PaletteEntry>,
    label: String,
    shortcut: Option<String>,
    action: PaletteAction,
)
    ensures
        final(entries).deep_view() == old(entries).deep_view().push(
            (EntryView {
                label: label@,
                shortcut: shortcut.deep_view(),
                action: action.deep_view(),
            }),
        ),
{
    let ghost before = entries.deep_view();
    let entry = PaletteEntry { label, shortcut, action };
    let ghost added = entry.deep_view();
    entries.push(entry);
    assert(entries.deep_view() =~= before.push(added));
}

/// Appends an entry with a fixed label and no shortcut.
pub(crate) fn push_plain(entries: &mut Vec<PaletteEntry>, label: &str, action: PaletteAction)
    ensures
        final(entries).deep_view() == old(entries).deep_view().push(
            plain(label@, action.deep_view()),
        ),
{
    push_entry(entries, label.to_owned(), None, action);
}

/// The first entry of every list but the commands.
pub open spec fn back_entry() -> EntryView {
    plain("Back to Commands"@, ActionView::ResetMode)
}

/// A list with the way back to the commands.
pub(crate) fn list_with_way_back() -> (r: Vec<PaletteEntry>)
    ensures
        r.deep_view() == seq![back_entry()],
{
    let mut entries: Vec<PaletteEntry> = Vec::new();
    assert(entries.deep_view() =~= Seq::<EntryView>::empty());
    push_plain(&mut entries, "Back to Commands", PaletteAction::ResetMode);
    entries
}

/// What `str::to_lowercase` returns.
pub uninterp spec fn lowered(text: Seq<char>) -> Seq<char>;

/// Whether a text holds ASCII characters only.
pub open spec fn is_ascii_text(text: Seq<char>) -> bool {
    forall|i: int| 0 <= i < text.len() ==> #[trigger] text[i] as u32 <= 127
}

/// `str::to_lowercase` of the standard library: the text with each character replaced by
/// its lower case. Of a text in ASCII those are the small letters of the capitals; of any
/// other text the result is named only.
#[verifier::external_body]
fn lowercase(text: &str) -> (r: String)
    ensures
        r@ == lowered(text@),
        is_ascii_text(text@) ==> r@ == text::ascii_lowered(text@),
{
    text.to_lowercase()
}

/// Whether an entry is listed for a query, given the lower case of its label and of the
/// query.
pub open spec fn listed(entry: EntryView, low_label: Seq<char>, low_query: Seq<char>) -> bool {
    if low_query.len() == 0 {
        !entry.action.search_only()
    } else {
        text::has_part(low_label, low_query)
    }
}

/// The positions of the listed entries, given the lower case of the labels and the query.
pub open spec fn listed_positions(
    entries: Seq<EntryView>,
    low_labels: Seq<Seq<char>>,
    low_query: Seq<char>,
) -> Seq<int>
    decreases entries.len(),
{
    if entries.len() == 0 {
        Seq::empty()
    } else {
        let before = listed_positions(entries.drop_last(), low_labels, low_query);
        let i = entries.len() - 1;
        if listed(entries[i], low_labels[i], low_query) {
            before.push(i)
        } else {
            before
        }
    }
}

/// The positions of the listed entries, given the lower case of the labels and the query.
pub fn matching_positions(
    entries: &[PaletteEntry],
    low_labels: &Vec<String>,
    low_query: &str,
) -> (r: Vec<usize>)
    requires
        low_labels.len() == entries.len(),
    ensures
        r@.map_values(|i: usize| i as int) == listed_positions(
            entries.deep_view(),
            low_labels.deep_view(),
            low_query@,
        ),
        forall|k: int| 0 <= k < r.len() ==> #[trigger] r[k] < entries.len(),
{
    let ghost all = entries.deep_view();
    let ghost lows = low_labels.deep_view();
    let mut r: Vec<usize> = Vec::new();
    let mut i: usize = 0;
    assert(r@.map_values(|i: usize| i as int) =~= listed_positions(all.take(0), lows, low_query@));
    while i < entries.len()
        invariant
            all == entries.deep_view(),
            lows == low_labels.deep_view(),
            low_labels.len() == entries.len(),
            i <= entries.len(),
            r@.map_values(|i: usize| i as int) == listed_positions(
                all.take(i as int),
                lows,
                low_query@,
            ),
            forall|k: int| 0 <= k < r.len() ==> #[trigger] r[k] < entries.len(),
        decreases entries.len() - i,
    {
        assert(all.take(i + 1).drop_last() =~= all.take(i as int));
        assert(all[i as int] == entries[i as int].deep_view());
        assert(lows[i as int] == low_labels[i as int]@);
        let ghost before = r@;
        let shown = if low_query.is_empty() {
            !entries[i].action.is_search_only()
        } else {
            contains_text(low_labels[i].as_str(), low_query)
        };
        if shown {
            r.push(i);
            assert(r@.map_values(|i: usize| i as int) =~= before.map_values(
                |i: usize| i as int,
            ).push(i as int));
        }
        i += 1;
    }
    assert(all.take(i as int) =~= all);
    r
}

/// The positions of the entries that a query lists.
pub open spec fn found_positions(entries: Seq<EntryView>, query: Seq<char>) -> Seq<int> {
    listed_positions(
        entries,
        entries.map_values(|entry: EntryView| lowered(entry.label)),
        lowered(query),
    )
}

/// Whether the lower case of what is in ASCII is that of ASCII.
pub open spec fn lowers_ascii(entries: Seq<EntryView>, query: Seq<char>) -> bool {
    &&& is_ascii_text(query) ==> lowered(query) == text::ascii_lowered(query)
    &&& forall|k: int|
        0 <= k < entries.len() && is_ascii_text(entries[k].label) ==> lowered(
            (#[trigger] entries[k]).label,
        ) == text::ascii_lowered(entries[k].label)
}

/// The positions of the entries that a query lists: those whose label holds the query,
/// whatever the case; without a query all but the ones that are for searching only.
pub fn filtered_positions(entries: &[PaletteEntry], query: &str) -> (r: Vec<usize>)
    ensures
        r@.map_values(|i: usize| i as int) == found_positions(entries.deep_view(), query@),
        forall|k: int| 0 <= k < r.len() ==> #[trigger] r[k] < entries.len(),
        lowers_ascii(entries.deep_view(), query@),
{
    let low_query = lowercase(query);
    let mut lows: Vec<String> = Vec::new();
    let mut i: usize = 0;
    while i < entries.len()
        invariant
            i <= entries.len(),
            lows.len() == i,
            forall|k: int| 0 <= k < i ==> (#[trigger] lows[k])@ == lowered(entries[k].label@),
            forall|k: int|
                0 <= k < i && is_ascii_text(entries[k].label@) ==> (#[trigger] lows[k])@
                    == text::ascii_lowered(entries[k].label@),
        decreases entries.len() - i,
    {
        lows.push(lowercase(entries[i].label.as_str()));
        i += 1;
    }
    assert(lows.deep_view() =~= entries.deep_view().map_values(
        |entry: EntryView| lowered(entry.label),
    ));
    assert forall|k: int|
        0 <= k < entries.deep_view().len() && is_ascii_text(
            entries.deep_view()[k].label,
        ) implies lowered((#[trigger] entries.deep_view()[k]).label) == text::ascii_lowered(
        entries.deep_view()[k].label,
    ) by {
        assert(lows[k]@ == lowered(entries[k].label@));
    }
    matching_positions(entries, &lows, low_query.as_str())
}

/// The entries that a query lists.
pub fn filtered_entries<'a>(entries: &'a [PaletteEntry], query: &str) -> (r: Vec<
    &'a PaletteEntry,
>)
    ensures
        r.len() == found_positions(entries.deep_view(), query@).len(),
        forall|k: int|
            0 <= k < r.len() ==> *#[trigger] r[k] == entries@[found_positions(
                entries.deep_view(),
                query@,
            )[k]],
        lowers_ascii(entries.deep_view(), query@),
{
    let positions = filtered_positions(entries, query);
    let ghost found = found_positions(entries.deep_view(), query@);
    let mut r: Vec<&'a PaletteEntry> = Vec::new();
    let mut i: usize = 0;
    while i < positions.len()
        invariant
            i <= positions.len(),
            r.len() == i,
            found == positions@.map_values(|i: usize| i as int),
            forall|k: int| 0 <= k < positions.len() ==> #[trigger] positions[k] < entries.len(),
            forall|k: int| 0 <= k < r.len() ==> *#[trigger] r[k] == entries@[found[k]],
        decreases positions.len() - i,
    {
        assert(found[i as int] == positions[i as int]);
        r.push(&entries[positions[i]]);
        i += 1;
    }
    r
}

/// The entry in this row of the list.
pub open spec fn row_position(
    entries: Seq<EntryView>,
    query: Seq<char>,
    row: int,
) -> Option<int> {
    let found = found_positions(entries, query);
    if 0 <= row < found.len() {
        Some(found[row])
    } else {
        None
    }
}

/// The entry in this row of the list, where the row is one of the list's.
pub fn activated_entry_for_row<'a>(
    entries: &'a [PaletteEntry],
    query: &str,
    row_index: i32,
) -> (r: Option<&'a PaletteEntry>)
    ensures
        r is Some <==> row_position(entries.deep_view(), query@, row_index as int) is Some,
        r matches Some(entry) ==> *entry == entries@[row_position(
            entries.deep_view(),
            query@,
            row_index as int,
        )->0],
        lowers_ascii(entries.deep_view(), query@),
{
    let rows = filtered_entries(entries, query);
    if row_index < 0 || row_index as usize >= rows.len() {
        return None;
    }
    Some(rows[row_index as usize])
}

/// The rows are entries in their order: no two rows are one entry.
pub proof fn law_rows_keep_the_order(
    entries: Seq<EntryView>,
    low_labels: Seq<Seq<char>>,
    low_query: Seq<char>,
)
    ensures
        forall|i: int, j: int|
            0 <= i < j < listed_positions(entries, low_labels, low_query).len() ==> 0
                <= #[trigger] listed_positions(entries, low_labels, low_query)[i]
                < #[trigger] listed_positions(entries, low_labels, low_query)[j],
        forall|i: int|
            0 <= i < listed_positions(entries, low_labels, low_query).len() ==> 0
                <= #[trigger] listed_positions(entries, low_labels, low_query)[i] < entries.len(),
    decreases entries.len(),
{
    let all = listed_positions(entries, low_labels, low_query);
    if entries.len() > 0 {
        law_rows_keep_the_order(entries.drop_last(), low_labels, low_query);
        let before = listed_positions(entries.drop_last(), low_labels, low_query);
        assert(all == before || all == before.push(entries.len() - 1));
        assert forall|i: int| 0 <= i < all.len() implies 0 <= #[trigger] all[i] < entries.len() by {
            if i < before.len() {
                assert(all[i] == before[i]);
            }
        }
        assert forall|i: int, j: int| 0 <= i < j < all.len() implies 0 <= #[trigger] all[i]
            < #[trigger] all[j] by {
            assert(all[i] == before[i]);
            if j < before.len() {
                assert(all[j] == before[j]);
            }
        }
    }
}

/// An entry has a row exactly where the query lists it.
pub proof fn law_rows_are_the_listed_entries(
    entries: Seq<EntryView>,
    low_labels: Seq<Seq<char>>,
    low_query: Seq<char>,
    i: int,
)
    requires
        0 <= i < entries.len(),
    ensures
        listed_positions(entries, low_labels, low_query).contains(i) <==> listed(
            entries[i],
            low_labels[i],
            low_query,
        ),
    decreases entries.len(),
{
    let all = listed_positions(entries, low_labels, low_query);
    let before = listed_positions(entries.drop_last(), low_labels, low_query);
    law_rows_keep_the_order(entries.drop_last(), low_labels, low_query);
    let last = entries.len() - 1;
    if i < last {
        law_rows_are_the_listed_entries(entries.drop_last(), low_labels, low_query, i);
        if before.contains(i) {
            let k = choose|k: int| 0 <= k < before.len() && before[k] == i;
            assert(all[k] == i);
        }
        if all.contains(i) {
            let k = choose|k: int| 0 <= k < all.len() && all[k] == i;
            assert(before[k] == i);
        }
    } else if listed(entries[i], low_labels[i], low_query) {
        assert(all[before.len() as int] == i);
    } else {
        assert(all == before);
    }
}

/// Without a query everything is listed but what is for searching only; with one, whatever
/// has the query in its label, in any case of letters.
pub proof fn law_what_a_query_finds(
    entry: EntryView,
    head: Seq<char>,
    query: Seq<char>,
    tail: Seq<char>,
    label: Seq<char>,
)
    ensures
        listed(entry, label, Seq::empty()) == !(entry.action is MiseTaskInFocusedPane
            || entry.action is WorkspaceActionInFocusedPane),
        query.len() > 0 ==> listed(entry, head + query + tail, query),
        query.len() > label.len() ==> !listed(entry, label, query),
        query.len() > 0 && query.len() == label.len() ==> listed(entry, label, query) == (query
            == label),
{
    text::law_prefixes_and_parts(head, query, tail);
    if query.len() > 0 {
        text::law_prefixes_and_parts(label, query, Seq::empty());
        if query == label {
            text::law_prefixes_and_parts(Seq::empty(), query, Seq::empty());
            assert(Seq::<char>::empty() + query + Seq::<char>::empty() =~= label);
        } else if query.len() == label.len() && text::has_part(label, query) {
            let (h, t) = choose|h: Seq<char>, t: Seq<char>| label == #[trigger] (h + query + t);
            assert(h.len() == 0 && t.len() == 0);
            assert(label =~= query);
        }
        if query.len() > label.len() && text::has_part(label, query) {
            let (h, t) = choose|h: Seq<char>, t: Seq<char>| label == #[trigger] (h + query + t);
            assert(label.len() >= query.len());
        }
    }
}

/// A row leads to the entry that it shows, and rows beyond the list to none.
pub proof fn law_rows_lead_to_their_entries(entries: Seq<EntryView>, query: Seq<char>, row: int)
    ensures
        row < 0 || row >= found_positions(entries, query).len() ==> row_position(
            entries,
            query,
            row,
        ) is None,
        0 <= row < found_positions(entries, query).len() ==> row_position(entries, query, row)
            == Some(found_positions(entries, query)[row]),
{
}

/// An entry that runs a task names it; the entries for searching only run the same tasks.
pub proof fn law_entries_of_tasks(request: RequestView)
    ensures
        ActionView::MiseTask(request).task() == Some(request),
        ActionView::MiseTaskInFocusedPane(request).task() == Some(request),
        ActionView::WorkspaceAction(request).task() == Some(request),
        ActionView::WorkspaceActionInFocusedPane(request).task() == Some(request),
        !ActionView::MiseTask(request).search_only(),
        !ActionView::WorkspaceAction(request).search_only(),
        ActionView::MiseTaskInFocusedPane(request).search_only(),
        ActionView::WorkspaceActionInFocusedPane(request).search_only(),
        back_entry() == (EntryView {
            label: "Back to Commands"@,
            shortcut: None,
            action: ActionView::ResetMode,
        }),
{
}

} // verus!
