//! What the palette lists besides the fixed commands: tabs, tasks, worktrees, projects and
//! hosts.

use vstd::prelude::*;
use vstd::string::*;
use crate::keybindings::{Action, Shortcuts};
use crate::mise::cache::CachedTaskDiscovery;
use crate::mise::MiseTask;
use crate::palette::commands;
use crate::palette::commands::{build_core_tab_entries, push_starting};
use crate::palette::entry;
use crate::palette::entry::{
    push_entry, push_plain, ActionView, EntryView, PaletteAction, PaletteEntry,
};
use crate::palette::pickers::TmuxUiState;
use crate::palette::records::{
    HostCandidate, HostCandidateView, HostSource, ProjectView, RegisteredProject,
};
use crate::task_launch::{
    RequestView, SnapshotView, TaskDiscoverySnapshot, TaskLaunchRequest, TaskLaunchSurface,
};
use crate::text::same_text;
use crate::workspace;
use crate::workspace::{
    AppState, BroadcastScope, Tab, Workspace, WorkspaceAction, WorkspaceActionInfo,
};

verus! {

/// The entries that choose the panes that typed text goes to.
pub open spec fn broadcast_entries(
    keys: Seq<(Action, Seq<char>)>,
    scope: Option<BroadcastScope>,
) -> Seq<EntryView> {
    let both = seq![
        commands::starting(
            keys,
            if scope == Some(BroadcastScope::Tab) {
                "Broadcast Input: Active Tab (Current)"@
            } else {
                "Broadcast Input: Active Tab"@
            },
            Action::BroadcastTab,
        ),
        commands::starting(
            keys,
            if scope == Some(BroadcastScope::Workspace) {
                "Broadcast Input: Active Workspace (Current)"@
            } else {
                "Broadcast Input: Active Workspace"@
            },
            Action::BroadcastWorkspace,
        ),
    ];
    if scope is Some {
        both.push(commands::starting(keys, "Broadcast Input: Off"@, Action::BroadcastOff))
    } else {
        both
    }
}

/// Appends the entries that choose the panes that typed text goes to.
pub fn build_broadcast_entries(
    entries: &mut Vec<PaletteEntry>,
    shortcuts: &Shortcuts,
    scope: Option<BroadcastScope>,
)
    ensures
        final(entries).deep_view() == old(entries).deep_view() + broadcast_entries(
            shortcuts@,
            scope,
        ),
{
    let ghost head = entries.deep_view();
    let tab_label = match scope {
        Some(BroadcastScope::Tab) => "Broadcast Input: Active Tab (Current)",
        _ => "Broadcast Input: Active Tab",
    };
    push_starting(entries, shortcuts, tab_label, Action::BroadcastTab);
    let workspace_label = match scope {
        Some(BroadcastScope::Workspace) => "Broadcast Input: Active Workspace (Current)",
        _ => "Broadcast Input: Active Workspace",
    };
    push_starting(entries, shortcuts, workspace_label, Action::BroadcastWorkspace);
    if scope.is_some() {
        push_starting(entries, shortcuts, "Broadcast Input: Off", Action::BroadcastOff);
    }
    assert(entries.deep_view() =~= head + broadcast_entries(shortcuts@, scope));
}

/// The entry that goes to a tab.
pub open spec fn switch_entry(tab: Tab) -> EntryView {
    entry::plain("Switch to: "@ + tab.name@, ActionView::SwitchTab(tab.id))
}

/// The entries that move the active tab to another workspace.
pub open spec fn move_entries(workspaces: Seq<Workspace>, active: u32) -> Seq<EntryView>
    decreases workspaces.len(),
{
    if workspaces.len() == 0 {
        Seq::empty()
    } else {
        let before = move_entries(workspaces.drop_last(), active);
        let ws = workspaces.last();
        if ws.id != active {
            before.push(
                entry::plain(
                    "Move current tab -> "@ + ws.name@,
                    ActionView::MoveCurrentTabToWorkspace(ws.id),
                ),
            )
        } else {
            before
        }
    }
}

/// The entries for the tabs.
pub open spec fn tab_entries(state: AppState) -> Seq<EntryView> {
    workspace::tabs_of(state.workspaces@).map_values(|tab: Tab| switch_entry(tab)) + if
        state.active_tab_value() is Some {
        move_entries(state.workspaces@, state.active_workspace)
    } else {
        Seq::empty()
    }
}

/// Appends an entry for each tab that goes there, and one for each other workspace that
/// moves the active tab there.
pub fn build_tab_switch_entries(entries: &mut Vec<PaletteEntry>, state: &AppState)
    ensures
        final(entries).deep_view() == old(entries).deep_view() + tab_entries(*state),
{
    let ghost head = entries.deep_view();
    let tabs = state.all_tabs();
    let ghost all = workspace::tabs_of(state.workspaces@);
    let ghost rows = all.map_values(|tab: Tab| switch_entry(tab));
    let mut i: usize = 0;
    assert(entries.deep_view() =~= head + rows.take(0));
    while i < tabs.len()
        invariant
            tabs@.len() == all.len(),
            forall|k: int| 0 <= k < tabs@.len() ==> *(#[trigger] tabs@[k]) == all[k],
            rows == all.map_values(|tab: Tab| switch_entry(tab)),
            i <= tabs.len(),
            entries.deep_view() == head + rows.take(i as int),
        decreases tabs.len() - i,
    {
        assert(*tabs@[i as int] == all[i as int]);
        let mut label = "Switch to: ".to_owned();
        label.append(tabs[i].name.as_str());
        push_entry(entries, label, None, PaletteAction::SwitchTab(tabs[i].id));
        assert(entries.deep_view() =~= head + rows.take(i + 1));
        i += 1;
    }
    assert(rows.take(i as int) =~= rows);
    if state.active_tab().is_some() {
        let ghost opened = entries.deep_view();
        let ghost all_ws = state.workspaces@;
        let mut j: usize = 0;
        assert(entries.deep_view() =~= opened + move_entries(
            all_ws.take(0),
            state.active_workspace,
        ));
        while j < state.workspaces.len()
            invariant
                all_ws == state.workspaces@,
                j <= all_ws.len(),
                entries.deep_view() == opened + move_entries(
                    all_ws.take(j as int),
                    state.active_workspace,
                ),
            decreases all_ws.len() - j,
        {
            assert(all_ws.take(j + 1).drop_last() =~= all_ws.take(j as int));
            let ws = &state.workspaces[j];
            if ws.id != state.active_workspace {
                let mut label = "Move current tab -> ".to_owned();
                label.append(ws.name.as_str());
                push_entry(entries, label, None, PaletteAction::MoveCurrentTabToWorkspace(ws.id));
            }
            assert(entries.deep_view() =~= opened + move_entries(
                all_ws.take(j + 1),
                state.active_workspace,
            ));
            j += 1;
        }
        assert(all_ws.take(j as int) =~= all_ws);
    }
    assert(entries.deep_view() =~= head + tab_entries(*state));
}

/// A request of the palette to run a task.
pub open spec fn task_request(
    source_tab_id: u32,
    discovery: Option<SnapshotView>,
    task_name: Seq<char>,
    workspace_action: Option<WorkspaceAction>,
) -> RequestView {
    RequestView {
        surface: TaskLaunchSurface::Palette,
        source_tab_id,
        discovery,
        task_name,
        workspace_action,
    }
}

/// A request of the palette to run a task.
pub fn palette_task_request(
    source_tab_id: u32,
    discovery: Option<TaskDiscoverySnapshot>,
    task_name: &str,
    workspace_action: Option<WorkspaceAction>,
) -> (r: TaskLaunchRequest)
    ensures
        r.deep_view() == task_request(
            source_tab_id,
            discovery.deep_view(),
            task_name@,
            workspace_action,
        ),
{
    TaskLaunchRequest {
        surface: TaskLaunchSurface::Palette,
        source_tab_id,
        discovery,
        task_name: task_name.to_owned(),
        workspace_action,
    }
}

/// The two entries of each workspace action.
pub open spec fn action_entries(
    actions: Seq<WorkspaceActionInfo>,
    tab_id: u32,
    discovery: SnapshotView,
) -> Seq<EntryView>
    decreases actions.len(),
{
    if actions.len() == 0 {
        Seq::empty()
    } else {
        let info = actions.last();
        let request = task_request(tab_id, Some(discovery), info.task_name@, Some(info.action));
        action_entries(actions.drop_last(), tab_id, discovery).push(
            entry::plain("Quick Action: "@ + info.label@, ActionView::WorkspaceAction(request)),
        ).push(
            entry::plain(
                "Legacy Alias: Run "@ + info.label@ + " in Focused Pane (Dedicated Tab)"@,
                ActionView::WorkspaceActionInFocusedPane(request),
            ),
        )
    }
}

/// The entries of the workspace actions that discovery found.
pub open spec fn discovered_entries(
    actions: Seq<WorkspaceActionInfo>,
    tab_id: u32,
    discovery: SnapshotView,
) -> Seq<EntryView> {
    if actions.len() == 0 {
        seq![entry::plain("Discover Tasks (Ctrl+Shift+D)"@, ActionView::DiscoverTab)]
    } else {
        action_entries(actions, tab_id, discovery)
    }
}

/// Appends the entries of the workspace actions that discovery found, each with its older
/// name; without any, the entry that discovers tasks.
pub fn build_discovered_task_entries(
    entries: &mut Vec<PaletteEntry>,
    actions: &Vec<WorkspaceActionInfo>,
    source_tab_id: u32,
    discovery: &TaskDiscoverySnapshot,
)
    ensures
        final(entries).deep_view() == old(entries).deep_view() + discovered_entries(
            actions@,
            source_tab_id,
            discovery.deep_view(),
        ),
{
    let ghost head = entries.deep_view();
    if actions.len() == 0 {
        push_plain(entries, "Discover Tasks (Ctrl+Shift+D)", PaletteAction::DiscoverTab);
        assert(entries.deep_view() =~= head + discovered_entries(
            actions@,
            source_tab_id,
            discovery.deep_view(),
        ));
        return ;
    }
    let ghost all = actions@;
    let ghost found = discovery.deep_view();
    let mut i: usize = 0;
    assert(entries.deep_view() =~= head + action_entries(all.take(0), source_tab_id, found));
    while i < actions.len()
        invariant
            all == actions@,
            found == discovery.deep_view(),
            i <= all.len(),
            entries.deep_view() == head + action_entries(all.take(i as int), source_tab_id, found),
        decreases all.len() - i,
    {
        assert(all.take(i + 1).drop_last() =~= all.take(i as int));
        let info = &actions[i];
        let request = palette_task_request(
            source_tab_id,
            Some(discovery.copy_snapshot()),
            info.task_name.as_str(),
            Some(info.action),
        );
        let alias = request.copy_request();
        let mut label = "Quick Action: ".to_owned();
        label.append(info.label.as_str());
        push_entry(entries, label, None, PaletteAction::WorkspaceAction(request));
        let mut alias_label = "Legacy Alias: Run ".to_owned();
        alias_label.append(info.label.as_str());
        alias_label.append(" in Focused Pane (Dedicated Tab)");
        push_entry(entries, alias_label, None, PaletteAction::WorkspaceActionInFocusedPane(alias));
        assert(entries.deep_view() =~= head + action_entries(
            all.take(i + 1),
            source_tab_id,
            found,
        ));
        i += 1;
    }
    assert(all.take(i as int) =~= all);
}

/// Whether a task has an entry of its own: discovery found it, and it is no workspace
/// action.
pub open spec fn task_is_listed(
    task: MiseTask,
    discovery: SnapshotView,
    actions: Seq<WorkspaceActionInfo>,
) -> bool {
    discovery.task_names.contains(task.name@) && !names_task(actions, task.name@)
}

/// Whether one of the workspace actions runs the task.
pub open spec fn names_task(actions: Seq<WorkspaceActionInfo>, name: Seq<char>) -> bool {
    exists|i: int| 0 <= i < actions.len() && (#[trigger] actions[i]).task_name@ == name
}

/// The entry text of a task.
pub open spec fn task_label(task: MiseTask) -> Seq<char> {
    if task.description@.len() == 0 {
        "mise: "@ + task.name@
    } else {
        "mise: "@ + task.name@ + " — "@ + task.description@
    }
}

/// The two entries of each listed task.
pub open spec fn task_entries(
    tasks: Seq<MiseTask>,
    tab_id: u32,
    discovery: SnapshotView,
    actions: Seq<WorkspaceActionInfo>,
) -> Seq<EntryView>
    decreases tasks.len(),
{
    if tasks.len() == 0 {
        Seq::empty()
    } else {
        let before = task_entries(tasks.drop_last(), tab_id, discovery, actions);
        let task = tasks.last();
        if task_is_listed(task, discovery, actions) {
            let request = task_request(tab_id, Some(discovery), task.name@, None);
            before.push(entry::plain(task_label(task), ActionView::MiseTask(request))).push(
                entry::plain(
                    "Legacy Alias: Run mise "@ + task.name@
                        + " in Focused Pane (Dedicated Tab)"@,
                    ActionView::MiseTaskInFocusedPane(request),
                ),
            )
        } else {
            before
        }
    }
}

/// The entries of the tasks that the cache holds.
pub open spec fn cached_task_entries(
    cached: CachedTaskDiscovery,
    tab_id: u32,
    discovery: SnapshotView,
    actions: Seq<WorkspaceActionInfo>,
) -> Seq<EntryView> {
    match cached {
        CachedTaskDiscovery::Ready(tasks) => task_entries(tasks@, tab_id, discovery, actions),
        CachedTaskDiscovery::Pending => seq![
            entry::plain("mise: discovering tasks..."@, ActionView::Noop),
        ],
        CachedTaskDiscovery::Missing => Seq::empty(),
    }
}

/// Whether one of the workspace actions runs the task.
fn runs_task(actions: &Vec<WorkspaceActionInfo>, name: &str) -> (r: bool)
    ensures
        r == names_task(actions@, name@),
{
    let mut i: usize = 0;
    while i < actions.len()
        invariant
            i <= actions.len(),
            forall|k: int| 0 <= k < i ==> (#[trigger] actions[k]).task_name@ != name@,
        decreases actions.len() - i,
    {
        if same_text(actions[i].task_name.as_str(), name) {
            assert(actions@[i as int].task_name@ == name@);
            return true;
        }
        i += 1;
    }
    false
}

/// Appends the entries of the tasks that the cache holds and that discovery found for the
/// tab, but for those of the workspace actions.
pub fn build_mise_task_entries(
    entries: &mut Vec<PaletteEntry>,
    source_tab_id: u32,
    discovery: &TaskDiscoverySnapshot,
    cached: &CachedTaskDiscovery,
    actions: &Vec<WorkspaceActionInfo>,
)
    ensures
        final(entries).deep_view() == old(entries).deep_view() + cached_task_entries(
            *cached,
            source_tab_id,
            discovery.deep_view(),
            actions@,
        ),
{
    let ghost head = entries.deep_view();
    let ghost found = discovery.deep_view();
    match cached {
        CachedTaskDiscovery::Ready(tasks) => {
            let ghost all = tasks@;
            let mut i: usize = 0;
            assert(entries.deep_view() =~= head + task_entries(
                all.take(0),
                source_tab_id,
                found,
                actions@,
            ));
            while i < tasks.len()
                invariant
                    all == tasks@,
                    found == discovery.deep_view(),
                    i <= all.len(),
                    entries.deep_view() == head + task_entries(
                        all.take(i as int),
                        source_tab_id,
                        found,
                        actions@,
                    ),
                decreases all.len() - i,
            {
                assert(all.take(i + 1).drop_last() =~= all.take(i as int));
                let task = &tasks[i];
                if discovery.contains_task(task.name.as_str()) && !runs_task(
                    actions,
                    task.name.as_str(),
                ) {
                    let mut label = "mise: ".to_owned();
                    label.append(task.name.as_str());
                    if !task.description.as_str().is_empty() {
                        label.append(" — ");
                        label.append(task.description.as_str());
                    }
                    let request = palette_task_request(
                        source_tab_id,
                        Some(discovery.copy_snapshot()),
                        task.name.as_str(),
                        None,
                    );
                    let alias = request.copy_request();
                    push_entry(entries, label, None, PaletteAction::MiseTask(request));
                    let mut alias_label = "Legacy Alias: Run mise ".to_owned();
                    alias_label.append(task.name.as_str());
                    alias_label.append(" in Focused Pane (Dedicated Tab)");
                    push_entry(
                        entries,
                        alias_label,
                        None,
                        PaletteAction::MiseTaskInFocusedPane(alias),
                    );
                }
                assert(entries.deep_view() =~= head + task_entries(
                    all.take(i + 1),
                    source_tab_id,
                    found,
                    actions@,
                ));
                i += 1;
            }
            assert(all.take(i as int) =~= all);
        },
        CachedTaskDiscovery::Pending => {
            push_plain(entries, "mise: discovering tasks...", PaletteAction::Noop);
            assert(entries.deep_view() =~= head + cached_task_entries(
                *cached,
                source_tab_id,
                found,
                actions@,
            ));
        },
        CachedTaskDiscovery::Missing => {
            assert(entries.deep_view() =~= head + Seq::<EntryView>::empty());
        },
    }
}

/// The entries for worktrees, in a repository.
pub open spec fn worktree_commands(in_repo: bool) -> Seq<EntryView> {
    if in_repo {
        seq![
            entry::plain("Create Worktree"@, ActionView::CreateWorktree),
            entry::plain("List Worktrees"@, ActionView::ListWorktrees),
            entry::plain("Remove Worktree"@, ActionView::RemoveWorktree),
        ]
    } else {
        Seq::empty()
    }
}

/// Appends the entries for worktrees, where the active workspace is a repository.
pub fn build_worktree_palette_entries(entries: &mut Vec<PaletteEntry>, in_repo: bool)
    ensures
        final(entries).deep_view() == old(entries).deep_view() + worktree_commands(in_repo),
{
    let ghost head = entries.deep_view();
    if in_repo {
        push_plain(entries, "Create Worktree", PaletteAction::CreateWorktree);
        push_plain(entries, "List Worktrees", PaletteAction::ListWorktrees);
        push_plain(entries, "Remove Worktree", PaletteAction::RemoveWorktree);
    }
    assert(entries.deep_view() =~= head + worktree_commands(in_repo));
}

/// The two entries of each project.
pub open spec fn project_rows(projects: Seq<ProjectView>) -> Seq<EntryView>
    decreases projects.len(),
{
    if projects.len() == 0 {
        Seq::empty()
    } else {
        let project = projects.last();
        project_rows(projects.drop_last()).push(
            entry::plain(
                "Project: "@ + project.display_name + " — "@ + project.host.label() + " — "@
                    + project.canonical_repo + " — "@ + project.checkout_root,
                ActionView::OpenProject(project),
            ),
        ).push(
            entry::plain(
                "Forget project: "@ + project.display_name + " — "@ + project.host.label() + " — "@
                    + project.checkout_root,
                ActionView::ForgetProject(project),
            ),
        )
    }
}

/// The entries of the registered projects.
pub open spec fn project_entries(projects: Option<Result<Vec<RegisteredProject>, String>>) -> Seq<
    EntryView,
> {
    match projects {
        Some(Ok(projects)) => project_rows(projects.deep_view()),
        Some(Err(error)) => seq![
            entry::plain(
                "Projects unavailable: "@ + error@,
                ActionView::ShowError("Could not load projects: "@ + error@),
            ),
        ],
        None => seq![entry::plain("Loading registered projects…"@, ActionView::Noop)],
    }
}

/// Appends two entries for each registered project, to open it and to forget it; or that
/// the projects are being read, or why they could not be.
pub fn build_registered_project_entries(
    entries: &mut Vec<PaletteEntry>,
    projects: &Option<Result<Vec<RegisteredProject>, String>>,
)
    ensures
        final(entries).deep_view() == old(entries).deep_view() + project_entries(*projects),
{
    let ghost head = entries.deep_view();
    match projects {
        Some(Ok(projects)) => {
            let ghost all = projects.deep_view();
            let mut i: usize = 0;
            assert(entries.deep_view() =~= head + project_rows(all.take(0)));
            while i < projects.len()
                invariant
                    all == projects.deep_view(),
                    i <= all.len(),
                    entries.deep_view() == head + project_rows(all.take(i as int)),
                decreases all.len() - i,
            {
                assert(all.take(i + 1).drop_last() =~= all.take(i as int));
                let project = &projects[i];
                assert(all[i as int] == project.deep_view());
                let host = project.host.label();
                let mut label = "Project: ".to_owned();
                label.append(project.display_name.as_str());
                label.append(" — ");
                label.append(host.as_str());
                label.append(" — ");
                label.append(project.canonical_repo.as_str());
                label.append(" — ");
                label.append(project.checkout_root.as_str());
                push_entry(
                    entries,
                    label,
                    None,
                    PaletteAction::OpenProject(project.copy_project()),
                );
                let mut forget = "Forget project: ".to_owned();
                forget.append(project.display_name.as_str());
                forget.append(" — ");
                forget.append(host.as_str());
                forget.append(" — ");
                forget.append(project.checkout_root.as_str());
                push_entry(
                    entries,
                    forget,
                    None,
                    PaletteAction::ForgetProject(project.copy_project()),
                );
                assert(entries.deep_view() =~= head + project_rows(all.take(i + 1)));
                i += 1;
            }
            assert(all.take(i as int) =~= all);
        },
        Some(Err(error)) => {
            let mut label = "Projects unavailable: ".to_owned();
            label.append(error.as_str());
            let mut message = "Could not load projects: ".to_owned();
            message.append(error.as_str());
            push_entry(entries, label, None, PaletteAction::ShowError(message));
            assert(entries.deep_view() =~= head + project_entries(*projects));
        },
        None => {
            push_plain(entries, "Loading registered projects…", PaletteAction::Noop);
            assert(entries.deep_view() =~= head + project_entries(*projects));
        },
    }
}

/// The file that names a host, as it is shown.
pub open spec fn source_name(source: HostSource) -> Seq<char> {
    match source {
        HostSource::ConfigToml => "config.toml"@,
        HostSource::SshConfig => "ssh config"@,
    }
}

/// The entries of the hosts that can be reached by SSH.
pub open spec fn host_entries(hosts: Seq<HostCandidateView>) -> Seq<EntryView>
    decreases hosts.len(),
{
    if hosts.len() == 0 {
        Seq::empty()
    } else {
        let before = host_entries(hosts.drop_last());
        let host = hosts.last();
        match host.config.ssh_target {
            Some(target) => before.push(
                entry::plain(
                    "Connect: "@ + host.name + " — "@ + target + " — "@ + source_name(host.source),
                    ActionView::ConnectHost(host.config),
                ),
            ),
            None => before,
        }
    }
}

/// Appends an entry for each host that can be reached by SSH.
pub fn build_host_connect_entries(entries: &mut Vec<PaletteEntry>, hosts: &Vec<HostCandidate>)
    ensures
        final(entries).deep_view() == old(entries).deep_view() + host_entries(hosts.deep_view()),
{
    let ghost head = entries.deep_view();
    let ghost all = hosts.deep_view();
    let mut i: usize = 0;
    assert(entries.deep_view() =~= head + host_entries(all.take(0)));
    while i < hosts.len()
        invariant
            all == hosts.deep_view(),
            i <= all.len(),
            entries.deep_view() == head + host_entries(all.take(i as int)),
        decreases all.len() - i,
    {
        assert(all.take(i + 1).drop_last() =~= all.take(i as int));
        let host = &hosts[i];
        assert(all[i as int] == host.deep_view());
        if let Some(target) = &host.config.ssh_target {
            let mut label = "Connect: ".to_owned();
            label.append(host.name.as_str());
            label.append(" — ");
            label.append(target.as_str());
            label.append(" — ");
            match host.source {
                HostSource::ConfigToml => {
                    label.append("config.toml");
                },
                HostSource::SshConfig => {
                    label.append("ssh config");
                },
            }
            push_entry(entries, label, None, PaletteAction::ConnectHost(host.config.copy_host()));
        }
        assert(entries.deep_view() =~= head + host_entries(all.take(i + 1)));
        i += 1;
    }
    assert(all.take(i as int) =~= all);
}

/// What the list of commands is made of, besides the state of the program.
pub struct PaletteContext {
    pub shortcuts: Shortcuts,
    pub tmux: TmuxUiState,
    /// How many lines the command that copies recent output takes.
    pub recent_copy_lines: u64,
    pub broadcast_scope: Option<BroadcastScope>,
    /// The tasks that discovery found for the active tab.
    pub discovery: Option<TaskDiscoverySnapshot>,
    /// What the cache holds for the place of that discovery.
    pub cached: CachedTaskDiscovery,
    pub projects: Option<Result<Vec<RegisteredProject>, String>>,
    pub hosts: Vec<HostCandidate>,
}

/// Whether a tab needs attention.
pub open spec fn any_attention(tabs: Seq<Tab>) -> bool {
    exists|i: int| 0 <= i < tabs.len() && (#[trigger] tabs[i]).needs_attention
}

/// Whether a tab needs attention.
pub fn has_attention_targets(state: &AppState) -> (r: bool)
    ensures
        r == any_attention(workspace::tabs_of(state.workspaces@)),
{
    let tabs = state.all_tabs();
    let ghost all = workspace::tabs_of(state.workspaces@);
    let mut i: usize = 0;
    while i < tabs.len()
        invariant
            tabs@.len() == all.len(),
            forall|k: int| 0 <= k < tabs@.len() ==> *(#[trigger] tabs@[k]) == all[k],
            all == workspace::tabs_of(state.workspaces@),
            i <= tabs.len(),
            forall|k: int| 0 <= k < i ==> !(#[trigger] all[k]).needs_attention,
        decreases tabs.len() - i,
    {
        assert(*tabs@[i as int] == all[i as int]);
        if tabs[i].needs_attention {
            return true;
        }
        i += 1;
    }
    false
}

/// The first tab that needs attention, and its pane with the focus.
pub open spec fn attention_target(tabs: Seq<Tab>) -> Option<(u32, u32)>
    decreases tabs.len(),
{
    if tabs.len() == 0 {
        None
    } else if tabs[0].needs_attention {
        Some((tabs[0].id, tabs[0].focused_pane_id))
    } else {
        attention_target(tabs.skip(1))
    }
}

/// The first tab that needs attention, and its pane with the focus.
pub fn first_attention_target(state: &AppState) -> (r: Option<(u32, u32)>)
    ensures
        r == attention_target(workspace::tabs_of(state.workspaces@)),
{
    let tabs = state.all_tabs();
    let ghost all = workspace::tabs_of(state.workspaces@);
    let mut i: usize = 0;
    assert(all.skip(0) =~= all);
    while i < tabs.len()
        invariant
            tabs@.len() == all.len(),
            forall|k: int| 0 <= k < tabs@.len() ==> *(#[trigger] tabs@[k]) == all[k],
            all == workspace::tabs_of(state.workspaces@),
            i <= tabs.len(),
            attention_target(all.skip(i as int)) == attention_target(all),
        decreases tabs.len() - i,
    {
        assert(*tabs@[i as int] == all[i as int]);
        assert(all.skip(i as int).skip(1) =~= all.skip(i + 1));
        if tabs[i].needs_attention {
            return Some((tabs[i].id, tabs[i].focused_pane_id));
        }
        i += 1;
    }
    None
}

/// There is a target exactly where a tab needs attention.
pub proof fn law_attention_has_a_target(tabs: Seq<Tab>)
    ensures
        attention_target(tabs) is Some <==> any_attention(tabs),
    decreases tabs.len(),
{
    if tabs.len() > 0 {
        let rest = tabs.skip(1);
        law_attention_has_a_target(rest);
        if any_attention(rest) {
            let i = choose|i: int| 0 <= i < rest.len() && (#[trigger] rest[i]).needs_attention;
            assert(tabs[i + 1].needs_attention);
        }
        if any_attention(tabs) && !tabs[0].needs_attention {
            let i = choose|i: int| 0 <= i < tabs.len() && (#[trigger] tabs[i]).needs_attention;
            assert(rest[i - 1].needs_attention);
        }
    }
}

/// The entries of the tasks of the active tab.
pub open spec fn active_task_entries(state: AppState, context: PaletteContext) -> Seq<EntryView> {
    match (state.active_tab_value(), context.discovery) {
        (Some(tab), Some(discovery)) => discovered_entries(
            tab.discovered_actions@,
            tab.id,
            discovery.deep_view(),
        ) + cached_task_entries(
            context.cached,
            tab.id,
            discovery.deep_view(),
            tab.discovered_actions@,
        ),
        _ => Seq::empty(),
    }
}

/// Whether the active workspace is a repository.
pub open spec fn in_repository(state: AppState) -> bool {
    match state.active_workspace_value() {
        Some(ws) => ws.repo_root is Some,
        None => false,
    }
}

/// The list of commands.
pub open spec fn command_entries(state: AppState, context: PaletteContext) -> Seq<EntryView> {
    commands::core_entries(
        context.shortcuts@,
        context.tmux,
        context.recent_copy_lines,
        any_attention(workspace::tabs_of(state.workspaces@)),
    ) + broadcast_entries(context.shortcuts@, context.broadcast_scope) + tab_entries(state)
        + active_task_entries(state, context) + worktree_commands(in_repository(state))
        + project_entries(context.projects) + host_entries(context.hosts.deep_view())
}

/// The list of commands: the fixed ones, the tabs, the tasks of the active tab, worktrees,
/// projects and hosts.
pub fn build_entries(state: &AppState, context: &PaletteContext) -> (r: Vec<PaletteEntry>)
    ensures
        r.deep_view() == command_entries(*state, *context),
{
    let mut entries = build_core_tab_entries(
        &context.shortcuts,
        &context.tmux,
        context.recent_copy_lines,
        has_attention_targets(state),
    );
    build_broadcast_entries(&mut entries, &context.shortcuts, context.broadcast_scope);
    build_tab_switch_entries(&mut entries, state);
    let ghost before = entries.deep_view();
    if let Some(tab) = state.active_tab() {
        if let Some(discovery) = &context.discovery {
            build_discovered_task_entries(
                &mut entries,
                &tab.discovered_actions,
                tab.id,
                discovery,
            );
            build_mise_task_entries(
                &mut entries,
                tab.id,
                discovery,
                &context.cached,
                &tab.discovered_actions,
            );
        }
    }
    assert(entries.deep_view() =~= before + active_task_entries(*state, *context));
    let in_repo = match state.active_ws() {
        Some(ws) => ws.repo_root.is_some(),
        None => false,
    };
    build_worktree_palette_entries(&mut entries, in_repo);
    build_registered_project_entries(&mut entries, &context.projects);
    build_host_connect_entries(&mut entries, &context.hosts);
    entries
}

/// The input can be sent to the tab and to the workspace, and the scope that is on is marked;
/// it can be turned off while it is on.
pub proof fn law_commands_for_broadcasts(keys: Seq<(Action, Seq<char>)>, scope: Option<BroadcastScope>)
    ensures
        ({
            let entries = broadcast_entries(keys, scope);
            &&& entries[0].action == ActionView::Activate(Action::BroadcastTab)
            &&& entries[1].action == ActionView::Activate(Action::BroadcastWorkspace)
            &&& entries[0].label == if scope == Some(BroadcastScope::Tab) {
                "Broadcast Input: Active Tab (Current)"@
            } else {
                "Broadcast Input: Active Tab"@
            }
            &&& entries[1].label == if scope == Some(BroadcastScope::Workspace) {
                "Broadcast Input: Active Workspace (Current)"@
            } else {
                "Broadcast Input: Active Workspace"@
            }
            &&& scope is None ==> entries.len() == 2
            &&& scope is Some ==> entries.len() == 3 && entries[2].action == ActionView::Activate(
                Action::BroadcastOff,
            ) && entries[2].label == "Broadcast Input: Off"@
        }),
{
}

/// Every tab can be switched to, by its name; the tab with the focus can be moved to every
/// workspace but its own.
pub proof fn law_commands_for_tabs(
    state: AppState,
    workspaces: Seq<Workspace>,
    ws: Workspace,
    active: u32,
    i: int,
)
    ensures
        ({
            let tabs = workspace::tabs_of(state.workspaces@);
            &&& 0 <= i < tabs.len() ==> tab_entries(state)[i] == (EntryView {
                label: "Switch to: "@ + tabs[i].name@,
                shortcut: None,
                action: ActionView::SwitchTab(tabs[i].id),
            })
            &&& state.active_tab_value() is None ==> tab_entries(state).len() == tabs.len()
            &&& state.active_tab_value() is Some ==> tab_entries(state).skip(tabs.len() as int)
                == move_entries(state.workspaces@, state.active_workspace)
        }),
        move_entries(Seq::empty(), active) == Seq::<EntryView>::empty(),
        ws.id == active ==> move_entries(workspaces.push(ws), active) == move_entries(
            workspaces,
            active,
        ),
        ws.id != active ==> move_entries(workspaces.push(ws), active) == move_entries(
            workspaces,
            active,
        ).push(
            EntryView {
                label: "Move current tab -> "@ + ws.name@,
                shortcut: None,
                action: ActionView::MoveCurrentTabToWorkspace(ws.id),
            },
        ),
{
    let tabs = workspace::tabs_of(state.workspaces@);
    assert(workspaces.push(ws).drop_last() =~= workspaces);
    if state.active_tab_value() is Some {
        assert(tab_entries(state).skip(tabs.len() as int) =~= move_entries(
            state.workspaces@,
            state.active_workspace,
        ));
    }
}

/// A task that the palette starts names the tab that it was listed for, what was discovered
/// there, and the task.
pub proof fn law_requests_of_the_palette(
    tab_id: u32,
    discovery: Option<SnapshotView>,
    name: Seq<char>,
    action: Option<WorkspaceAction>,
)
    ensures
        task_request(tab_id, discovery, name, action).surface == TaskLaunchSurface::Palette,
        task_request(tab_id, discovery, name, action).source_tab_id == tab_id,
        task_request(tab_id, discovery, name, action).discovery == discovery,
        task_request(tab_id, discovery, name, action).task_name == name,
        task_request(tab_id, discovery, name, action).workspace_action == action,
{
}

/// Each discovered action has an entry and an older name, which run its task; without actions
/// there is the command to discover them.
pub proof fn law_entries_of_actions(
    actions: Seq<WorkspaceActionInfo>,
    info: WorkspaceActionInfo,
    tab_id: u32,
    discovery: SnapshotView,
)
    ensures
        ({
            let request = task_request(tab_id, Some(discovery), info.task_name@, Some(info.action));
            &&& discovered_entries(Seq::empty(), tab_id, discovery) == seq![
                EntryView {
                    label: "Discover Tasks (Ctrl+Shift+D)"@,
                    shortcut: None,
                    action: ActionView::DiscoverTab,
                },
            ]
            &&& discovered_entries(actions.push(info), tab_id, discovery) == action_entries(
                actions,
                tab_id,
                discovery,
            ).push(
                EntryView {
                    label: "Quick Action: "@ + info.label@,
                    shortcut: None,
                    action: ActionView::WorkspaceAction(request),
                },
            ).push(
                EntryView {
                    label: "Legacy Alias: Run "@ + info.label@
                        + " in Focused Pane (Dedicated Tab)"@,
                    shortcut: None,
                    action: ActionView::WorkspaceActionInFocusedPane(request),
                },
            )
        }),
{
    assert(actions.push(info).drop_last() =~= actions);
}

/// A task is listed where it was discovered for the tab and no action stands for it, with its
/// description where it has one; choosing it runs it.
pub proof fn law_entries_of_listed_tasks(
    tasks: Seq<MiseTask>,
    task: MiseTask,
    tab_id: u32,
    discovery: SnapshotView,
    actions: Seq<WorkspaceActionInfo>,
)
    ensures
        ({
            let before = task_entries(tasks, tab_id, discovery, actions);
            let after = task_entries(tasks.push(task), tab_id, discovery, actions);
            let request = task_request(tab_id, Some(discovery), task.name@, None);
            let named = exists|i: int|
                0 <= i < actions.len() && (#[trigger] actions[i]).task_name@ == task.name@;
            &&& !discovery.task_names.contains(task.name@) || named ==> after == before
            &&& discovery.task_names.contains(task.name@) && !named ==> {
                &&& after.len() == before.len() + 2
                &&& after.take(before.len() as int) == before
                &&& after[before.len() as int].action == ActionView::MiseTask(request)
                &&& task.description@.len() == 0 ==> after[before.len() as int].label == "mise: "@
                    + task.name@
                &&& task.description@.len() > 0 ==> after[before.len() as int].label == "mise: "@
                    + task.name@ + " — "@ + task.description@
                &&& after[before.len() as int + 1].action == ActionView::MiseTaskInFocusedPane(request)
                &&& after[before.len() as int + 1].label == "Legacy Alias: Run mise "@ + task.name@
                    + " in Focused Pane (Dedicated Tab)"@
            }
        }),
{
    assert(tasks.push(task).drop_last() =~= tasks);
    let before = task_entries(tasks, tab_id, discovery, actions);
    let after = task_entries(tasks.push(task), tab_id, discovery, actions);
    if task_is_listed(task, discovery, actions) {
        assert(after.take(before.len() as int) =~= before);
    }
}

/// While tasks are being discovered the palette says so; before, it shows none.
pub proof fn law_entries_while_tasks_are_discovered(
    tasks: Vec<MiseTask>,
    tab_id: u32,
    discovery: SnapshotView,
    actions: Seq<WorkspaceActionInfo>,
)
    ensures
        cached_task_entries(CachedTaskDiscovery::Pending, tab_id, discovery, actions) == seq![
            EntryView {
                label: "mise: discovering tasks..."@,
                shortcut: None,
                action: ActionView::Noop,
            },
        ],
        cached_task_entries(CachedTaskDiscovery::Missing, tab_id, discovery, actions) == Seq::<
            EntryView,
        >::empty(),
        cached_task_entries(CachedTaskDiscovery::Ready(tasks), tab_id, discovery, actions)
            == task_entries(tasks@, tab_id, discovery, actions),
{
}

/// Worktrees can be made, listed and removed in a repository, and nowhere else.
pub proof fn law_commands_for_worktrees(state: AppState)
    ensures
        worktree_commands(false) == Seq::<EntryView>::empty(),
        worktree_commands(true).len() == 3,
        worktree_commands(true)[0] == (EntryView {
            label: "Create Worktree"@,
            shortcut: None,
            action: ActionView::CreateWorktree,
        }),
        worktree_commands(true)[1] == (EntryView {
            label: "List Worktrees"@,
            shortcut: None,
            action: ActionView::ListWorktrees,
        }),
        worktree_commands(true)[2] == (EntryView {
            label: "Remove Worktree"@,
            shortcut: None,
            action: ActionView::RemoveWorktree,
        }),
        in_repository(state) <==> (state.active_workspace_value() matches Some(ws)
            && ws.repo_root is Some),
{
}

/// A registered project can be opened and forgotten, and its entries say what and where it is.
pub proof fn law_entries_of_projects(projects: Seq<ProjectView>, project: ProjectView, error: String)
    ensures
        project_rows(Seq::empty()) == Seq::<EntryView>::empty(),
        project_rows(projects.push(project)) == project_rows(projects).push(
            EntryView {
                label: "Project: "@ + project.display_name + " — "@ + project.host.label() + " — "@
                    + project.canonical_repo + " — "@ + project.checkout_root,
                shortcut: None,
                action: ActionView::OpenProject(project),
            },
        ).push(
            EntryView {
                label: "Forget project: "@ + project.display_name + " — "@ + project.host.label()
                    + " — "@ + project.checkout_root,
                shortcut: None,
                action: ActionView::ForgetProject(project),
            },
        ),
        project_entries(None) == seq![
            EntryView {
                label: "Loading registered projects…"@,
                shortcut: None,
                action: ActionView::Noop,
            },
        ],
        project_entries(Some(Err(error))) == seq![
            EntryView {
                label: "Projects unavailable: "@ + error@,
                shortcut: None,
                action: ActionView::ShowError("Could not load projects: "@ + error@),
            },
        ],
{
    assert(projects.push(project).drop_last() =~= projects);
}

/// A host that can be reached over SSH has an entry that says where it is known from; others
/// have none.
pub proof fn law_entries_of_hosts(
    hosts: Seq<HostCandidateView>,
    host: HostCandidateView,
    target: Seq<char>,
)
    ensures
        host_entries(Seq::empty()) == Seq::<EntryView>::empty(),
        host.config.ssh_target is None ==> host_entries(hosts.push(host)) == host_entries(hosts),
        host.config.ssh_target == Some(target) && host.source == HostSource::ConfigToml
            ==> host_entries(hosts.push(host)) == host_entries(hosts).push(
            EntryView {
                label: "Connect: "@ + host.name + " — "@ + target + " — "@ + "config.toml"@,
                shortcut: None,
                action: ActionView::ConnectHost(host.config),
            },
        ),
        host.config.ssh_target == Some(target) && host.source == HostSource::SshConfig
            ==> host_entries(hosts.push(host)) == host_entries(hosts).push(
            EntryView {
                label: "Connect: "@ + host.name + " — "@ + target + " — "@ + "ssh config"@,
                shortcut: None,
                action: ActionView::ConnectHost(host.config),
            },
        ),
{
    assert(hosts.push(host).drop_last() =~= hosts);
}

/// The tasks of the tab with the focus are listed, where they were discovered.
pub proof fn law_tasks_of_the_tab_with_the_focus(state: AppState, context: PaletteContext)
    ensures
        state.active_tab_value() is None || context.discovery is None ==> active_task_entries(
            state,
            context,
        ) == Seq::<EntryView>::empty(),
        (state.active_tab_value() is Some && context.discovery is Some) ==> {
            let tab = state.active_tab_value()->0;
            let found = context.discovery->0.deep_view();
            active_task_entries(state, context) == discovered_entries(
                tab.discovered_actions@,
                tab.id,
                found,
            ) + cached_task_entries(context.cached, tab.id, found, tab.discovered_actions@)
        },
{
}

/// The first tab that needs attention is the one to jump to.
pub proof fn law_the_first_tab_that_needs_attention(tabs: Seq<Tab>, i: int)
    requires
        0 <= i < tabs.len(),
        tabs[i].needs_attention,
        forall|j: int| 0 <= j < i ==> !(#[trigger] tabs[j]).needs_attention,
    ensures
        attention_target(tabs) == Some((tabs[i].id, tabs[i].focused_pane_id)),
    decreases tabs.len(),
{
    if i > 0 {
        let rest = tabs.skip(1);
        assert(!tabs[0].needs_attention);
        assert(rest[i - 1] == tabs[i]);
        assert forall|j: int| 0 <= j < i - 1 implies !(#[trigger] rest[j]).needs_attention by {
            assert(rest[j] == tabs[j + 1]);
        }
        law_the_first_tab_that_needs_attention(rest, i - 1);
    }
}

/// The palette lists the commands, and behind them all that can be reached: broadcasts, tabs,
/// tasks, worktrees, projects and hosts.
pub proof fn law_the_palette_lists_everything(state: AppState, context: PaletteContext, entry: EntryView)
    ensures
        broadcast_entries(context.shortcuts@, context.broadcast_scope).contains(entry)
            ==> command_entries(state, context).contains(entry),
        tab_entries(state).contains(entry) ==> command_entries(state, context).contains(entry),
        active_task_entries(state, context).contains(entry) ==> command_entries(
            state,
            context,
        ).contains(entry),
        worktree_commands(in_repository(state)).contains(entry) ==> command_entries(
            state,
            context,
        ).contains(entry),
        project_entries(context.projects).contains(entry) ==> command_entries(
            state,
            context,
        ).contains(entry),
        host_entries(context.hosts.deep_view()).contains(entry) ==> command_entries(
            state,
            context,
        ).contains(entry),
        commands::core_entries(
            context.shortcuts@,
            context.tmux,
            context.recent_copy_lines,
            any_attention(workspace::tabs_of(state.workspaces@)),
        ).contains(entry) ==> command_entries(state, context).contains(entry),
{
    let a = commands::core_entries(
        context.shortcuts@,
        context.tmux,
        context.recent_copy_lines,
        any_attention(workspace::tabs_of(state.workspaces@)),
    );
    let b = broadcast_entries(context.shortcuts@, context.broadcast_scope);
    let c = tab_entries(state);
    let d = active_task_entries(state, context);
    let e = worktree_commands(in_repository(state));
    let f = project_entries(context.projects);
    let g = host_entries(context.hosts.deep_view());
    lemma_contains_both(a, b, entry);
    lemma_contains_both(a + b, c, entry);
    lemma_contains_both(a + b + c, d, entry);
    lemma_contains_both(a + b + c + d, e, entry);
    lemma_contains_both(a + b + c + d + e, f, entry);
    lemma_contains_both(a + b + c + d + e + f, g, entry);
}

proof fn lemma_contains_both(a: Seq<EntryView>, b: Seq<EntryView>, x: EntryView)
    ensures
        a.contains(x) || b.contains(x) ==> (a + b).contains(x),
{
    if a.contains(x) {
        let i = choose|i: int| 0 <= i < a.len() && a[i] == x;
        assert((a + b)[i] == x);
    } else if b.contains(x) {
        let i = choose|i: int| 0 <= i < b.len() && b[i] == x;
        assert((a + b)[a.len() + i] == x);
    }
}

} // verus!
