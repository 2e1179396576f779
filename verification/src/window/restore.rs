//! Bringing back a saved session: which tabs are opened at once, and which wait.

use vstd::prelude::*;
use vstd::string::*;
use crate::palette::templates;
use crate::palette::templates::{SavedTab, SavedTabView};
use crate::text::copy_optional_text;
use crate::workspace::{Tab, Workspace};

verus! {

/// A workspace of a saved session.
#[derive(Clone, Debug, PartialEq, Eq)]
pub struct SavedWorkspace {
    /// The id that the workspace had. It gets a new one when it is brought back.
    pub id: u32,
    /// The identity of the workspace across restarts.
    pub work_origin: Option<String>,
    pub name: String,
    pub collapsed: bool,
    pub repo_root: Option<String>,
    pub is_worktree: bool,
    pub working_tree_path: Option<String>,
    pub branch_name: Option<String>,
    pub host_config_name: Option<String>,
    pub linked_issue: Option<String>,
    pub tmux_backed: bool,
    pub tabs: Vec<SavedTab>,
    pub active_tab_index: usize,
}

/// A saved session.
#[derive(Clone, Debug, PartialEq, Eq)]
pub struct SavedSession {
    pub workspaces: Vec<SavedWorkspace>,
    pub active_workspace_index: usize,
    /// Whether the sidebar hid the detached sessions.
    pub background_section_collapsed: Option<bool>,
}

/// The directory in which git is asked about a saved workspace: its worktree, else its
/// repository.
pub open spec fn git_dir(saved: SavedWorkspace) -> Option<Seq<char>> {
    match saved.working_tree_path {
        Some(path) => Some(path@),
        None => saved.repo_root.deep_view(),
    }
}

/// The directory in which git is asked about a saved workspace: its worktree, else its
/// repository.
pub fn workspace_git_discovery_path(saved: &SavedWorkspace) -> (r: Option<String>)
    ensures
        r.deep_view() == git_dir(*saved),
{
    match &saved.working_tree_path {
        Some(path) => Some(path.clone()),
        None => copy_optional_text(&saved.repo_root),
    }
}

/// A saved position, moved to the last item where there are fewer.
pub open spec fn within(index: usize, count: nat) -> int {
    if index < count {
        index as int
    } else if count > 0 {
        count - 1
    } else {
        0
    }
}

/// A saved position, moved to the last item where there are fewer.
fn clamp_index(index: usize, count: usize) -> (r: usize)
    ensures
        r == within(index, count as nat),
{
    if index < count {
        index
    } else if count > 0 {
        count - 1
    } else {
        0
    }
}

/// How a tab of a session is brought back.
#[derive(Clone, Debug, PartialEq, Eq)]
pub struct TabRestore {
    pub name: String,
    pub panes: Option<String>,
    pub cwd: Option<String>,
    /// Whether the tab is opened at once, and does not wait until it is first shown.
    pub at_once: bool,
}

/// The mathematical value of a [`TabRestore`].
pub struct TabRestoreView {
    pub name: Seq<char>,
    pub panes: Option<Seq<char>>,
    pub cwd: Option<Seq<char>>,
    pub at_once: bool,
}

impl DeepView for TabRestore {
    type V = TabRestoreView;

    open spec fn deep_view(&self) -> TabRestoreView {
        TabRestoreView {
            name: self.name@,
            panes: self.panes.deep_view(),
            cwd: self.cwd.deep_view(),
            at_once: self.at_once,
        }
    }
}

/// How the tabs of a workspace are brought back. `eager` is the one that is opened at once.
pub open spec fn tab_restores(tabs: Seq<SavedTabView>, eager: Option<usize>) -> Seq<
    TabRestoreView,
> {
    Seq::new(
        tabs.len(),
        |i: int|
            TabRestoreView {
                name: tabs[i].name,
                panes: tabs[i].panes,
                cwd: tabs[i].cwd,
                at_once: eager matches Some(at) && at == i,
            },
    )
}

/// How the tabs of a workspace are brought back.
fn plan_tabs(tabs: &Vec<SavedTab>, eager: Option<usize>) -> (r: Vec<TabRestore>)
    ensures
        r.deep_view() == tab_restores(tabs.deep_view(), eager),
{
    let ghost plans = tab_restores(tabs.deep_view(), eager);
    let mut r: Vec<TabRestore> = Vec::new();
    let mut i: usize = 0;
    assert(r.deep_view() =~= plans.take(0));
    while i < tabs.len()
        invariant
            plans == tab_restores(tabs.deep_view(), eager),
            i <= tabs.len(),
            r.deep_view() == plans.take(i as int),
        decreases tabs.len() - i,
    {
        let tab = &tabs[i];
        let plan = TabRestore {
            name: tab.name.clone(),
            panes: copy_optional_text(&tab.panes),
            cwd: copy_optional_text(&tab.cwd),
            at_once: match eager {
                Some(at) => at == i,
                None => false,
            },
        };
        assert(tabs.deep_view()[i as int] == tab.deep_view());
        assert(plan.deep_view() == plans[i as int]);
        let ghost before = r.deep_view();
        r.push(plan);
        assert(r.deep_view() =~= before.push(plans[i as int]));
        assert(r.deep_view() =~= plans.take(i + 1));
        i += 1;
    }
    assert(plans.take(i as int) =~= plans);
    r
}

/// How a workspace is brought back.
#[derive(Clone, Debug, PartialEq, Eq)]
pub struct WorkspaceRestore {
    /// Where git is asked about the workspace, once the first tab is there.
    pub git_path: Option<String>,
    /// How each of its tabs is brought back.
    pub tabs: Vec<TabRestore>,
    /// The tab that is opened at once; the others wait until they are first shown.
    pub eager_tab: Option<usize>,
    /// Whether tasks are discovered for the tab that is opened at once.
    pub discover_tasks: bool,
    /// The tab that gets the focus in the workspace.
    pub active_tab: Option<usize>,
    pub collapsed: bool,
    /// Whether the workspace gets the focus.
    pub active: bool,
}

/// The mathematical value of a [`WorkspaceRestore`].
pub struct RestoreView {
    pub git_path: Option<Seq<char>>,
    pub tabs: Seq<TabRestoreView>,
    pub eager_tab: Option<usize>,
    pub discover_tasks: bool,
    pub active_tab: Option<usize>,
    pub collapsed: bool,
    pub active: bool,
}

impl DeepView for WorkspaceRestore {
    type V = RestoreView;

    open spec fn deep_view(&self) -> RestoreView {
        RestoreView {
            git_path: self.git_path.deep_view(),
            tabs: self.tabs.deep_view(),
            eager_tab: self.eager_tab,
            discover_tasks: self.discover_tasks,
            active_tab: self.active_tab,
            collapsed: self.collapsed,
            active: self.active,
        }
    }
}

/// The tab of a saved workspace that gets the focus.
pub open spec fn saved_active_tab(saved: SavedWorkspace) -> Option<usize> {
    if saved.tabs@.len() == 0 {
        None
    } else {
        Some(within(saved.active_tab_index, saved.tabs@.len()) as usize)
    }
}

/// How a saved workspace is brought back. Only the tab with the focus of the workspace with
/// the focus is opened at once.
pub open spec fn restore_of(saved: SavedWorkspace, active: bool) -> RestoreView {
    let tab = saved_active_tab(saved);
    let eager = if active {
        tab
    } else {
        None
    };
    RestoreView {
        git_path: git_dir(saved),
        tabs: tab_restores(saved.tabs.deep_view(), eager),
        eager_tab: eager,
        discover_tasks: active && tab is Some && saved.tabs@[tab->0 as int].discovery_cwd is Some,
        active_tab: tab,
        collapsed: saved.collapsed,
        active,
    }
}

/// How the workspaces of a saved session are brought back.
pub open spec fn restores_of(session: SavedSession) -> Seq<RestoreView> {
    let front = within(session.active_workspace_index, session.workspaces@.len());
    Seq::new(
        session.workspaces@.len(),
        |i: int| restore_of(session.workspaces@[i], i == front),
    )
}

/// How a saved workspace is brought back.
fn plan_workspace(saved: &SavedWorkspace, active: bool) -> (r: WorkspaceRestore)
    ensures
        r.deep_view() == restore_of(*saved, active),
{
    let active_tab: Option<usize> = if saved.tabs.len() == 0 {
        None
    } else {
        Some(clamp_index(saved.active_tab_index, saved.tabs.len()))
    };
    let discover_tasks = match active_tab {
        Some(i) => active && saved.tabs[i].discovery_cwd.is_some(),
        None => false,
    };
    let eager_tab: Option<usize> = if active {
        active_tab
    } else {
        None
    };
    WorkspaceRestore {
        git_path: workspace_git_discovery_path(saved),
        tabs: plan_tabs(&saved.tabs, eager_tab),
        eager_tab,
        discover_tasks,
        active_tab,
        collapsed: saved.collapsed,
        active,
    }
}

/// How a saved session is brought back, workspace by workspace; none where it has no
/// workspaces, so that the default workspace is made.
pub fn plan_session_restore(session: &SavedSession) -> (r: Option<Vec<WorkspaceRestore>>)
    ensures
        r.deep_view() == if session.workspaces@.len() == 0 {
            None
        } else {
            Some(restores_of(*session))
        },
{
    if session.workspaces.len() == 0 {
        return None;
    }
    let front: usize = clamp_index(session.active_workspace_index, session.workspaces.len());
    let ghost plans = restores_of(*session);
    let mut r: Vec<WorkspaceRestore> = Vec::new();
    let mut i: usize = 0;
    assert(r.deep_view() =~= plans.take(0));
    while i < session.workspaces.len()
        invariant
            plans == restores_of(*session),
            front == within(session.active_workspace_index, session.workspaces@.len()),
            i <= session.workspaces.len(),
            r.deep_view() == plans.take(i as int),
        decreases session.workspaces.len() - i,
    {
        let plan = plan_workspace(&session.workspaces[i], i == front);
        assert(plan.deep_view() == plans[i as int]);
        let ghost before = r.deep_view();
        r.push(plan);
        assert(r.deep_view() =~= before.push(plans[i as int]));
        assert(r.deep_view() =~= plans.take(i + 1));
        i += 1;
    }
    assert(plans.take(i as int) =~= plans);
    Some(r)
}

/// At most one tab of a session is opened at once, in the workspace with the focus, and
/// there is exactly one such workspace.
pub proof fn law_one_tab_is_opened_at_once(session: SavedSession)
    requires
        session.workspaces@.len() > 0,
    ensures
        forall|i: int, j: int|
            0 <= i < restores_of(session).len() && 0 <= j < restores_of(session).len()
                && (#[trigger] restores_of(session)[i]).active && (
            #[trigger] restores_of(session)[j]).active ==> i == j,
        exists|i: int| 0 <= i < restores_of(session).len() && (#[trigger] restores_of(session)[i]).active,
        forall|i: int|
            0 <= i < restores_of(session).len() && (
            #[trigger] restores_of(session)[i]).eager_tab is Some ==> restores_of(session)[i].active
                && restores_of(session)[i].eager_tab == restores_of(session)[i].active_tab,
        forall|i: int, k: int|
            0 <= i < restores_of(session).len() && 0 <= k < restores_of(session)[i].tabs.len()
                && (#[trigger] restores_of(session)[i].tabs[k]).at_once
                ==> restores_of(session)[i].active && restores_of(session)[i].active_tab == Some(
                k as usize,
            ),
{
    let front = within(session.active_workspace_index, session.workspaces@.len());
    assert(restores_of(session)[front].active);
}

/// The panes that were saved with a tab are those that it is brought back with, in a session
/// and from a template.
pub proof fn law_saved_panes_come_back(
    tabs: Seq<Tab>,
    panes: Seq<Seq<char>>,
    eager: Option<usize>,
    i: int,
)
    requires
        0 <= i < tabs.len(),
        i < panes.len(),
    ensures
        tab_restores(templates::saved_tabs(tabs, panes), eager)[i].panes == Some(panes[i]),
        templates::workspace_tab_plans(templates::saved_tabs(tabs, panes))[i].panes == Some(
            panes[i],
        ),
{
}

/// Every tab that gets the focus is one of its workspace's.
pub proof fn law_restored_tabs_exist(session: SavedSession, i: int)
    requires
        0 <= i < session.workspaces@.len(),
    ensures
        restores_of(session)[i].active_tab matches Some(tab) ==> tab
            < session.workspaces@[i].tabs@.len(),
        restores_of(session)[i].active_tab is None <==> session.workspaces@[i].tabs@.len() == 0,
{
    let saved = session.workspaces@[i];
    if saved.tabs@.len() > 0 {
        assert(0 <= within(saved.active_tab_index, saved.tabs@.len()) < saved.tabs@.len());
    }
}

/// The identity of what is brought back: the saved one, and else the one that it got.
pub open spec fn restored_origin(saved: Option<Seq<char>>, given: Seq<char>) -> Seq<char> {
    match saved {
        Some(origin) => origin,
        None => given,
    }
}

/// Takes over what was saved of a workspace.
pub fn apply_saved_workspace(workspace: &mut Workspace, saved: &SavedWorkspace)
    ensures
        final(workspace).work_origin@ == restored_origin(
            saved.work_origin.deep_view(),
            old(workspace).work_origin@,
        ),
        final(workspace).repo_root.deep_view() == saved.repo_root.deep_view(),
        final(workspace).is_worktree == saved.is_worktree,
        final(workspace).working_tree_path.deep_view() == saved.working_tree_path.deep_view(),
        final(workspace).branch_name.deep_view() == saved.branch_name.deep_view(),
        final(workspace).host_config_name.deep_view() == saved.host_config_name.deep_view(),
        final(workspace).linked_issue.deep_view() == saved.linked_issue.deep_view(),
        final(workspace).tmux_backed == saved.tmux_backed,
        *final(workspace) == (Workspace {
            work_origin: final(workspace).work_origin,
            repo_root: final(workspace).repo_root,
            is_worktree: final(workspace).is_worktree,
            working_tree_path: final(workspace).working_tree_path,
            branch_name: final(workspace).branch_name,
            host_config_name: final(workspace).host_config_name,
            linked_issue: final(workspace).linked_issue,
            tmux_backed: final(workspace).tmux_backed,
            ..*old(workspace)
        }),
{
    if let Some(origin) = &saved.work_origin {
        workspace.work_origin = origin.clone();
    }
    workspace.repo_root = copy_optional_text(&saved.repo_root);
    workspace.is_worktree = saved.is_worktree;
    workspace.working_tree_path = copy_optional_text(&saved.working_tree_path);
    workspace.branch_name = copy_optional_text(&saved.branch_name);
    workspace.host_config_name = copy_optional_text(&saved.host_config_name);
    workspace.linked_issue = copy_optional_text(&saved.linked_issue);
    workspace.tmux_backed = saved.tmux_backed;
}

/// Takes over what was saved of a tab: its identity, and where tasks were discovered for
/// it, in the form that the paths of this session have.
pub fn apply_saved_tab(tab: &mut Tab, saved: &SavedTab, discovery_cwd: Option<String>)
    ensures
        final(tab).work_origin@ == restored_origin(
            saved.work_origin.deep_view(),
            old(tab).work_origin@,
        ),
        final(tab).discovery_cwd == discovery_cwd,
        *final(tab) == (Tab {
            work_origin: final(tab).work_origin,
            discovery_cwd: final(tab).discovery_cwd,
            ..*old(tab)
        }),
{
    if let Some(origin) = &saved.work_origin {
        tab.work_origin = origin.clone();
    }
    tab.discovery_cwd = discovery_cwd;
}

/// A tab that was saved and brought back has the identity that it had.
pub proof fn law_saved_tabs_keep_their_identity(
    tab: Tab,
    panes: Option<Seq<char>>,
    given: Seq<char>,
)
    ensures
        restored_origin(templates::saved_tab(tab, panes).work_origin, given) == tab.work_origin@,
{
}

/// Whether the sidebar hides the detached sessions at the start: as it was saved, and else
/// it does.
pub fn background_starts_collapsed(session: &Option<SavedSession>) -> (r: bool)
    ensures
        r == match *session {
            Some(saved) => saved.background_section_collapsed != Some(false),
            None => true,
        },
{
    match session {
        Some(saved) => match saved.background_section_collapsed {
            Some(collapsed) => collapsed,
            None => true,
        },
        None => true,
    }
}

/// What the user is told when the session was read: what went wrong, or that the layout
/// is back; nothing where there was no session.
pub fn startup_message(diagnostic: &Option<String>, has_session: bool) -> (r: Option<String>)
    ensures
        r.deep_view() == match diagnostic.deep_view() {
            Some(message) => Some(message),
            None => if has_session {
                Some(
                    "Reopened layout. Display checkpoints are context only; live terminal and agent resume validate separately."@,
                )
            } else {
                None
            },
        },
{
    match diagnostic {
        Some(message) => Some(message.clone()),
        None => {
            if has_session {
                Some(
                    "Reopened layout. Display checkpoints are context only; live terminal and agent resume validate separately.".to_owned(),
                )
            } else {
                None
            }
        },
    }
}

/// What a session brings back is what was saved: every workspace, and in it every tab under
/// its name, in its directory and with its panes, in the saved order.
pub proof fn law_sessions_come_back_as_saved(session: SavedSession, i: int, k: int)
    requires
        0 <= i < session.workspaces@.len(),
        0 <= k < session.workspaces@[i].tabs@.len(),
    ensures
        restores_of(session).len() == session.workspaces@.len(),
        restores_of(session)[i].tabs.len() == session.workspaces@[i].tabs@.len(),
        restores_of(session)[i].tabs[k].name == session.workspaces@[i].tabs@[k].name@,
        restores_of(session)[i].tabs[k].cwd == session.workspaces@[i].tabs@[k].cwd.deep_view(),
        restores_of(session)[i].tabs[k].panes == session.workspaces@[i].tabs@[k].panes.deep_view(),
        restores_of(session)[i].collapsed == session.workspaces@[i].collapsed,
{
}

/// The focus comes back to where it was: to the saved workspace, and in each workspace to the
/// saved tab; to the last one where there are fewer. Only the tab with the focus is opened at
/// once, and tasks are looked for in it where they were before.
pub proof fn law_the_focus_comes_back(session: SavedSession, i: int)
    requires
        0 <= i < session.workspaces@.len(),
    ensures
        ({
            let saved = session.workspaces@[i];
            let plan = restores_of(session)[i];
            &&& session.active_workspace_index < session.workspaces@.len() ==> plan.active == (i
                == session.active_workspace_index)
            &&& session.active_workspace_index >= session.workspaces@.len() ==> plan.active == (i
                == session.workspaces@.len() - 1)
            &&& saved.active_tab_index < saved.tabs@.len() ==> plan.active_tab == Some(
                saved.active_tab_index,
            )
            &&& saved.tabs@.len() > 0 && saved.active_tab_index >= saved.tabs@.len()
                ==> plan.active_tab == Some((saved.tabs@.len() - 1) as usize)
            &&& plan.active ==> plan.eager_tab == plan.active_tab
            &&& !plan.active ==> plan.eager_tab is None && !plan.discover_tasks
            &&& plan.active && plan.active_tab is Some ==> plan.discover_tasks
                == saved.tabs@[plan.active_tab->0 as int].discovery_cwd is Some
            &&& forall|k: int|
                0 <= k < plan.tabs.len() ==> (#[trigger] plan.tabs[k]).at_once == (plan.active && (
                plan.active_tab matches Some(at) && at == k))
        }),
{
}

/// Git is asked about a workspace in its worktree, and else in its repository.
pub proof fn law_where_git_is_asked(saved: SavedWorkspace, active: bool)
    ensures
        saved.working_tree_path matches Some(path) ==> git_dir(saved) == Some(path@),
        saved.working_tree_path is None && (saved.repo_root matches Some(root)) ==> git_dir(saved)
            == Some(saved.repo_root->0@),
        saved.working_tree_path is None && saved.repo_root is None ==> git_dir(saved) is None,
        restore_of(saved, active).git_path == git_dir(saved),
{
}

/// A saved identity comes back; without one, what is brought back keeps the one that it got.
pub proof fn law_identities_come_back(saved: Seq<char>, given: Seq<char>)
    ensures
        restored_origin(Some(saved), given) == saved,
        restored_origin(None, given) == given,
{
}

/// A tab that was saved and brought back has the name and the directory that it had.
pub proof fn law_saved_tabs_keep_their_names(
    tabs: Seq<Tab>,
    panes: Seq<Seq<char>>,
    eager: Option<usize>,
    i: int,
)
    requires
        0 <= i < tabs.len(),
    ensures
        ({
            let saved = templates::saved_tabs(tabs, panes);
            let plans = tab_restores(saved, eager);
            &&& plans.len() == tabs.len()
            &&& plans[i].name == tabs[i].name@
            &&& plans[i].cwd == saved[i].cwd
            &&& saved[i].name == tabs[i].name@
            &&& saved[i].work_origin == Some(tabs[i].work_origin@)
            &&& saved[i].discovery_cwd == tabs[i].discovery_cwd.deep_view()
        }),
{
}

} // verus!
