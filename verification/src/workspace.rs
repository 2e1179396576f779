//! Workspaces, their tabs, and the state of the whole program that decisions read.

use std::collections::HashMap;
use vstd::prelude::*;
use vstd::string::*;
use crate::identity;
use crate::pane::{PaneLocationState, PaneNode, PaneProcessState, TmuxBacking};

verus! {

/// A task that a workspace offers under a fixed name.
#[derive(Clone, Copy, Debug, PartialEq, Eq, Structural)]
pub enum WorkspaceAction {
    Dev,
    Test,
    Build,
    Lint,
    Setup,
}

/// A workspace action with the task that it runs and the texts that it is shown with.
#[derive(Clone, Debug, PartialEq, Eq)]
pub struct WorkspaceActionInfo {
    pub action: WorkspaceAction,
    pub task_name: String,
    pub label: String,
    pub compact_label: String,
}

impl WorkspaceActionInfo {
    /// Another value of the same content.
    pub fn copy_info(&self) -> (r: WorkspaceActionInfo)
        ensures
            r == *self,
    {
        WorkspaceActionInfo {
            action: self.action,
            task_name: self.task_name.clone(),
            label: self.label.clone(),
            compact_label: self.compact_label.clone(),
        }
    }
}

/// A button that runs a task.
#[derive(Clone, Debug, PartialEq, Eq)]
pub struct WorkspaceTaskButton {
    pub label: String,
    pub task_name: String,
}

/// What a pane runs after its command has ended.
#[derive(Clone, Debug, PartialEq, Eq)]
pub struct ExitRespawn {
    pub working_dir: Option<String>,
    pub argv: Vec<String>,
}

/// What a tab shows.
#[derive(Clone, Copy, Debug, PartialEq, Eq, Structural)]
pub enum TabKind {
    Terminal,
    Dashboard,
}

/// A tab of a workspace.
pub struct Tab {
    pub id: u32,
    pub name: String,
    /// The identity of the tab across restarts.
    pub work_origin: String,
    pub kind: TabKind,
    pub panes: Box<PaneNode>,
    pub focused_pane_id: u32,
    pub next_pane_id: u32,
    pub needs_attention: bool,
    pub notification_msg: Option<String>,
    pub discovery_cwd: Option<String>,
    pub discovered_actions: Vec<WorkspaceActionInfo>,
}

/// A workspace: the tabs of one project.
pub struct Workspace {
    pub id: u32,
    pub name: String,
    /// The identity of the workspace across restarts.
    pub work_origin: String,
    pub tabs: Vec<Tab>,
    /// The id of the tab that has the focus; 0 in a workspace without tabs.
    pub active_tab: u32,
    pub last_active_tab: Option<u32>,
    pub repo_root: Option<String>,
    pub working_tree_path: Option<String>,
    pub branch_name: Option<String>,
    pub is_worktree: bool,
    /// The configured host of a workspace on another machine.
    pub host_config_name: Option<String>,
    /// The issue that the workspace is for.
    pub linked_issue: Option<String>,
    /// Whether new tabs run in tmux.
    pub tmux_backed: bool,
    /// Whether the sidebar hides the tabs.
    pub collapsed: bool,
}

/// The panes that typed text goes to.
#[derive(Clone, Copy, Debug, PartialEq, Eq, Structural)]
pub enum BroadcastScope {
    Tab,
    Workspace,
}

/// Which keys follow the chord.
#[derive(Clone, Copy, Debug, PartialEq, Eq, Structural)]
pub enum ChordMode {
    Leader,
    QuickAction,
}

/// The state of the program.
pub struct AppState {
    pub workspaces: Vec<Workspace>,
    pub active_workspace: u32,
    pub next_id: u32,
    /// The mise binary that discovery found for a tab.
    pub discovery_binary_paths: HashMap<u32, String>,
    /// The panes without a terminal widget, by their [`pane_key`].
    pub headless_panes: HashMap<u64, HeadlessPaneState>,
    /// The tabs whose saved panes are brought back when they are first shown.
    pub pending_tab_restores: HashMap<u32, PendingTabRestore>,
    /// The workspace that had the focus before.
    pub last_active_workspace: Option<u32>,
    /// The dashboard that is shown in place of the tab with the focus.
    pub presented_dashboard: Option<u32>,
    /// The panes that typed text goes to besides the focused one.
    pub broadcast: Option<BroadcastScope>,
    /// The chord that waits for a key.
    pub chord: Option<ChordMode>,
    /// The number of the latest chord.
    pub chord_generation: u64,
    /// Whether the sidebar hides the detached sessions.
    pub background_section_collapsed: bool,
}

/// The state of a pane without a terminal widget.
pub struct HeadlessPaneState {
    pub work_origin: String,
    pub shell_running: bool,
    pub tmux_backing: Option<TmuxBacking>,
    pub location_state: PaneLocationState,
    pub process_state: PaneProcessState,
}

/// The panes of a tab that are brought back when the tab is first shown.
pub struct PendingTabRestore {
    /// The saved panes, as the session file holds them.
    pub saved: String,
    pub cwd: Option<String>,
    pub show_restore_legend: bool,
}

/// The key of a pane among the panes of all tabs.
pub open spec fn pane_key(tab_id: u32, pane_id: u32) -> u64 {
    (tab_id * 0x1_0000_0000 + pane_id) as u64
}

/// The key of a pane among the panes of all tabs.
pub fn key_of_pane(tab_id: u32, pane_id: u32) -> (r: u64)
    ensures
        r == pane_key(tab_id, pane_id),
{
    tab_id as u64 * 0x1_0000_0000 + pane_id as u64
}

/// Different panes have different keys.
pub proof fn law_pane_keys_differ(tab_a: u32, pane_a: u32, tab_b: u32, pane_b: u32)
    ensures
        pane_key(tab_a, pane_a) == pane_key(tab_b, pane_b) <==> tab_a == tab_b && pane_a == pane_b,
{
}

/// The first workspace with this id.
pub open spec fn find_workspace(workspaces: Seq<Workspace>, id: u32) -> Option<Workspace>
    decreases workspaces.len(),
{
    if workspaces.len() == 0 {
        None
    } else if workspaces[0].id == id {
        Some(workspaces[0])
    } else {
        find_workspace(workspaces.skip(1), id)
    }
}

/// The first tab with this id.
pub open spec fn find_tab_in(tabs: Seq<Tab>, id: u32) -> Option<Tab>
    decreases tabs.len(),
{
    if tabs.len() == 0 {
        None
    } else if tabs[0].id == id {
        Some(tabs[0])
    } else {
        find_tab_in(tabs.skip(1), id)
    }
}

/// The first tab with this id in any workspace, with its workspace.
pub open spec fn find_tab_anywhere(workspaces: Seq<Workspace>, id: u32) -> Option<(Workspace, Tab)>
    decreases workspaces.len(),
{
    if workspaces.len() == 0 {
        None
    } else {
        match find_tab_in(workspaces[0].tabs@, id) {
            Some(tab) => Some((workspaces[0], tab)),
            None => find_tab_anywhere(workspaces.skip(1), id),
        }
    }
}

impl Workspace {
    /// The tab with this id.
    pub fn find_tab(&self, id: u32) -> (r: Option<&Tab>)
        ensures
            r is Some <==> find_tab_in(self.tabs@, id) is Some,
            r matches Some(tab) ==> find_tab_in(self.tabs@, id) == Some(*tab),
    {
        let ghost all = self.tabs@;
        let mut i: usize = 0;
        assert(all.skip(0) =~= all);
        while i < self.tabs.len()
            invariant
                all == self.tabs@,
                i <= all.len(),
                find_tab_in(all.skip(i as int), id) == find_tab_in(all, id),
            decreases all.len() - i,
        {
            assert(all.skip(i as int).skip(1) =~= all.skip(i + 1));
            if self.tabs[i].id == id {
                return Some(&self.tabs[i]);
            }
            i += 1;
        }
        None
    }
}

impl AppState {
    /// The workspace with the focus.
    pub open spec fn active_workspace_value(self) -> Option<Workspace> {
        find_workspace(self.workspaces@, self.active_workspace)
    }

    /// The tab with the focus.
    pub open spec fn active_tab_value(self) -> Option<Tab> {
        match self.active_workspace_value() {
            Some(ws) => find_tab_in(ws.tabs@, ws.active_tab),
            None => None,
        }
    }

    /// The workspace with this id.
    pub fn find_workspace(&self, id: u32) -> (r: Option<&Workspace>)
        ensures
            r is Some <==> find_workspace(self.workspaces@, id) is Some,
            r matches Some(ws) ==> find_workspace(self.workspaces@, id) == Some(*ws),
    {
        let ghost all = self.workspaces@;
        let mut i: usize = 0;
        assert(all.skip(0) =~= all);
        while i < self.workspaces.len()
            invariant
                all == self.workspaces@,
                i <= all.len(),
                find_workspace(all.skip(i as int), id) == find_workspace(all, id),
            decreases all.len() - i,
        {
            assert(all.skip(i as int).skip(1) =~= all.skip(i + 1));
            if self.workspaces[i].id == id {
                return Some(&self.workspaces[i]);
            }
            i += 1;
        }
        None
    }

    /// The workspace with the focus.
    pub fn active_ws(&self) -> (r: Option<&Workspace>)
        ensures
            r is Some <==> self.active_workspace_value() is Some,
            r matches Some(ws) ==> self.active_workspace_value() == Some(*ws),
    {
        self.find_workspace(self.active_workspace)
    }

    /// The tab with the focus.
    pub fn active_tab(&self) -> (r: Option<&Tab>)
        ensures
            r is Some <==> self.active_tab_value() is Some,
            r matches Some(tab) ==> self.active_tab_value() == Some(*tab),
    {
        match self.active_ws() {
            Some(ws) => ws.find_tab(ws.active_tab),
            None => None,
        }
    }

    /// The tab with this id, with its workspace.
    pub fn find_tab(&self, id: u32) -> (r: Option<(&Workspace, &Tab)>)
        ensures
            r is Some <==> find_tab_anywhere(self.workspaces@, id) is Some,
            r matches Some((ws, tab)) ==> find_tab_anywhere(self.workspaces@, id) == Some(
                (*ws, *tab),
            ),
    {
        let ghost all = self.workspaces@;
        let mut i: usize = 0;
        assert(all.skip(0) =~= all);
        while i < self.workspaces.len()
            invariant
                all == self.workspaces@,
                i <= all.len(),
                find_tab_anywhere(all.skip(i as int), id) == find_tab_anywhere(all, id),
            decreases all.len() - i,
        {
            assert(all.skip(i as int).skip(1) =~= all.skip(i + 1));
            let ws = &self.workspaces[i];
            if let Some(tab) = ws.find_tab(id) {
                return Some((ws, tab));
            }
            i += 1;
        }
        None
    }
}

/// The tabs of all workspaces, in their order.
pub open spec fn tabs_of(workspaces: Seq<Workspace>) -> Seq<Tab>
    decreases workspaces.len(),
{
    if workspaces.len() == 0 {
        Seq::empty()
    } else {
        tabs_of(workspaces.drop_last()) + workspaces.last().tabs@
    }
}

impl AppState {
    /// The tabs of all workspaces, in their order.
    pub fn all_tabs(&self) -> (r: Vec<&Tab>)
        ensures
            r@.len() == tabs_of(self.workspaces@).len(),
            forall|i: int| 0 <= i < r@.len() ==> *(#[trigger] r@[i]) == tabs_of(
                self.workspaces@,
            )[i],
    {
        let ghost all = self.workspaces@;
        let mut r: Vec<&Tab> = Vec::new();
        let mut i: usize = 0;
        assert(tabs_of(all.take(0)) =~= Seq::<Tab>::empty());
        while i < self.workspaces.len()
            invariant
                all == self.workspaces@,
                i <= all.len(),
                r@.len() == tabs_of(all.take(i as int)).len(),
                forall|k: int|
                    0 <= k < r@.len() ==> *(#[trigger] r@[k]) == tabs_of(all.take(i as int))[k],
            decreases all.len() - i,
        {
            assert(all.take(i + 1).drop_last() =~= all.take(i as int));
            let ghost done = tabs_of(all.take(i as int));
            let tabs = &self.workspaces[i].tabs;
            let mut j: usize = 0;
            while j < tabs.len()
                invariant
                    j <= tabs.len(),
                    r@.len() == done.len() + j,
                    forall|k: int|
                        0 <= k < r@.len() ==> *(#[trigger] r@[k]) == (done + tabs@)[k],
                decreases tabs.len() - j,
            {
                r.push(&tabs[j]);
                j += 1;
            }
            i += 1;
        }
        assert(all.take(i as int) =~= all);
        r
    }
}

/// A workspace without tabs.
pub open spec fn is_new_workspace(
    ws: Workspace,
    id: u32,
    name: Seq<char>,
    repo_root: Option<Seq<char>>,
    work_origin: Seq<char>,
) -> bool {
    &&& ws.id == id
    &&& ws.name@ == name
    &&& ws.work_origin@ == work_origin
    &&& ws.tabs@.len() == 0
    &&& ws.active_tab == 0
    &&& ws.last_active_tab is None
    &&& ws.repo_root.deep_view() == repo_root
    &&& ws.working_tree_path is None
    &&& ws.branch_name is None
    &&& !ws.is_worktree
    &&& ws.host_config_name is None
    &&& ws.linked_issue is None
    &&& !ws.tmux_backed
    &&& !ws.collapsed
}

/// A workspace without tabs.
fn empty_workspace(
    id: u32,
    name: &str,
    repo_root: Option<String>,
    work_origin: String,
) -> (r: Workspace)
    ensures
        is_new_workspace(r, id, name@, repo_root.deep_view(), work_origin@),
{
    Workspace {
        id,
        name: name.to_owned(),
        work_origin,
        tabs: Vec::new(),
        active_tab: 0,
        last_active_tab: None,
        repo_root,
        working_tree_path: None,
        branch_name: None,
        is_worktree: false,
        host_config_name: None,
        linked_issue: None,
        tmux_backed: false,
        collapsed: false,
    }
}

/// The position of the first workspace with this id, or the number of workspaces.
pub open spec fn workspace_index(workspaces: Seq<Workspace>, id: u32) -> nat
    decreases workspaces.len(),
{
    if workspaces.len() == 0 || workspaces[0].id == id {
        0
    } else {
        1 + workspace_index(workspaces.skip(1), id)
    }
}

impl AppState {
    /// A program with one workspace.
    pub fn new(work_origin: String) -> (r: AppState)
        ensures
            r.workspaces@.len() == 1,
            is_new_workspace(r.workspaces@[0], 1, "default"@, None, work_origin@),
            r.active_workspace == 1,
            r.next_id == 2,
            r.discovery_binary_paths@ == Map::<u32, String>::empty(),
            r.headless_panes@ == Map::<u64, HeadlessPaneState>::empty(),
            r.pending_tab_restores@ == Map::<u32, PendingTabRestore>::empty(),
            r.last_active_workspace is None,
            r.presented_dashboard is None,
            r.broadcast is None,
            r.chord is None,
            r.chord_generation == 0,
            r.background_section_collapsed,
            r.sound(),
    {
        let mut workspaces: Vec<Workspace> = Vec::new();
        workspaces.push(empty_workspace(1, "default", None, work_origin));
        proof {
            reveal_with_fuel(identity::tab_ids, 2);
            assert(identity::tab_ids(workspaces@) =~= Seq::<u32>::empty());
        }
        AppState {
            workspaces,
            active_workspace: 1,
            next_id: 2,
            discovery_binary_paths: HashMap::new(),
            headless_panes: HashMap::new(),
            pending_tab_restores: HashMap::new(),
            last_active_workspace: None,
            presented_dashboard: None,
            broadcast: None,
            chord: None,
            chord_generation: 0,
            background_section_collapsed: true,
        }
    }

    /// Makes a workspace without tabs, which gets the focus, and gives its id.
    pub fn create_workspace(
        &mut self,
        name: &str,
        repo_root: Option<String>,
        work_origin: String,
    ) -> (id: u32)
        requires
            old(self).next_id < u32::MAX,
        ensures
            id == old(self).next_id,
            *final(self) == (AppState {
                workspaces: final(self).workspaces,
                next_id: (old(self).next_id + 1) as u32,
                active_workspace: id,
                ..*old(self)
            }),
            final(self).workspaces@.len() == old(self).workspaces@.len() + 1,
            final(self).workspaces@.drop_last() == old(self).workspaces@,
            is_new_workspace(
                final(self).workspaces@.last(),
                id,
                name@,
                repo_root.deep_view(),
                work_origin@,
            ),
            old(self).sound() ==> final(self).sound(),
    {
        let id: u32 = self.next_id;
        self.next_id = self.next_id + 1;
        let ghost before = self.workspaces@;
        self.workspaces.push(empty_workspace(id, name, repo_root, work_origin));
        assert(self.workspaces@.drop_last() =~= before);
        self.active_workspace = id;
        proof {
            if old(self).sound() {
                identity::lemma_new_workspace_stays_sound(*old(self), *self);
            }
        }
        id
    }

    /// The position of the workspace with this id.
    pub fn workspace_position(&self, id: u32) -> (r: Option<usize>)
        ensures
            match r {
                Some(i) => i == workspace_index(self.workspaces@, id) && i < self.workspaces@.len()
                    && self.workspaces@[i as int].id == id && find_workspace(self.workspaces@, id)
                    == Some(self.workspaces@[i as int]),
                None => find_workspace(self.workspaces@, id) is None && workspace_index(
                    self.workspaces@,
                    id,
                ) == self.workspaces@.len(),
            },
    {
        let ghost all = self.workspaces@;
        let mut i: usize = 0;
        assert(all.skip(0) =~= all);
        while i < self.workspaces.len()
            invariant
                all == self.workspaces@,
                i <= all.len(),
                i + workspace_index(all.skip(i as int), id) == workspace_index(all, id),
                find_workspace(all.skip(i as int), id) == find_workspace(all, id),
            decreases all.len() - i,
        {
            assert(all.skip(i as int).skip(1) =~= all.skip(i + 1));
            if self.workspaces[i].id == id {
                return Some(i);
            }
            i += 1;
        }
        None
    }
}

/// The first workspace with an id is found by it, at its position; without one, none is.
pub proof fn law_workspaces_are_found_by_id(workspaces: Seq<Workspace>, id: u32, i: int)
    ensures
        0 <= i < workspaces.len() && workspaces[i].id == id && (forall|j: int|
            0 <= j < i ==> (#[trigger] workspaces[j]).id != id) ==> find_workspace(workspaces, id)
            == Some(workspaces[i]) && workspace_index(workspaces, id) == i,
        (forall|j: int| 0 <= j < workspaces.len() ==> (#[trigger] workspaces[j]).id != id)
            ==> find_workspace(workspaces, id) is None && workspace_index(workspaces, id)
            == workspaces.len(),
    decreases workspaces.len(),
{
    if workspaces.len() > 0 {
        let rest = workspaces.skip(1);
        law_workspaces_are_found_by_id(rest, id, i - 1);
        if 0 < i < workspaces.len() && workspaces[i].id == id && (forall|j: int|
            0 <= j < i ==> (#[trigger] workspaces[j]).id != id) {
            assert(workspaces[0].id != id);
            assert(rest[i - 1] == workspaces[i]);
            assert forall|j: int| 0 <= j < i - 1 implies (#[trigger] rest[j]).id != id by {
                assert(rest[j] == workspaces[j + 1]);
            }
        }
        if forall|j: int| 0 <= j < workspaces.len() ==> (#[trigger] workspaces[j]).id != id {
            assert(workspaces[0].id != id);
            assert forall|j: int| 0 <= j < rest.len() implies (#[trigger] rest[j]).id != id by {
                assert(rest[j] == workspaces[j + 1]);
            }
        }
    }
}

/// The first tab with an id is found by it; without one, none is.
pub proof fn law_tabs_are_found_by_id(tabs: Seq<Tab>, id: u32, i: int)
    ensures
        0 <= i < tabs.len() && tabs[i].id == id && (forall|j: int|
            0 <= j < i ==> (#[trigger] tabs[j]).id != id) ==> find_tab_in(tabs, id) == Some(
            tabs[i],
        ),
        (forall|j: int| 0 <= j < tabs.len() ==> (#[trigger] tabs[j]).id != id) <==> find_tab_in(
            tabs,
            id,
        ) is None,
        find_tab_in(tabs, id) matches Some(tab) ==> tab.id == id && tabs.contains(tab),
    decreases tabs.len(),
{
    if tabs.len() > 0 {
        let rest = tabs.skip(1);
        law_tabs_are_found_by_id(rest, id, i - 1);
        if 0 < i < tabs.len() && tabs[i].id == id && (forall|j: int|
            0 <= j < i ==> (#[trigger] tabs[j]).id != id) {
            assert(tabs[0].id != id);
            assert(rest[i - 1] == tabs[i]);
            assert forall|j: int| 0 <= j < i - 1 implies (#[trigger] rest[j]).id != id by {
                assert(rest[j] == tabs[j + 1]);
            }
        }
        if forall|j: int| 0 <= j < tabs.len() ==> (#[trigger] tabs[j]).id != id {
            assert(tabs[0].id != id);
            assert forall|j: int| 0 <= j < rest.len() implies (#[trigger] rest[j]).id != id by {
                assert(rest[j] == tabs[j + 1]);
            }
        }
        if find_tab_in(tabs, id) is None {
            assert forall|j: int| 0 <= j < tabs.len() implies (#[trigger] tabs[j]).id != id by {
                if j > 0 {
                    assert(rest[j - 1] == tabs[j]);
                }
            }
        }
        if tabs[0].id == id {
            assert(tabs.contains(tabs[0]));
        } else if let Some(tab) = find_tab_in(rest, id) {
            let k = choose|k: int| 0 <= k < rest.len() && rest[k] == tab;
            assert(tabs[k + 1] == tab);
        }
    }
}

/// A tab is found in the first workspace that holds it.
pub proof fn law_tabs_are_found_in_their_workspace(workspaces: Seq<Workspace>, id: u32, w: int)
    ensures
        0 <= w < workspaces.len() && find_tab_in(workspaces[w].tabs@, id) is Some && (forall|
            j: int,
        |
            0 <= j < w ==> find_tab_in((#[trigger] workspaces[j]).tabs@, id) is None)
            ==> find_tab_anywhere(workspaces, id) == Some(
            (workspaces[w], find_tab_in(workspaces[w].tabs@, id)->0),
        ),
        (forall|j: int|
            0 <= j < workspaces.len() ==> find_tab_in((#[trigger] workspaces[j]).tabs@, id) is None)
            ==> find_tab_anywhere(workspaces, id) is None,
    decreases workspaces.len(),
{
    if workspaces.len() > 0 {
        let rest = workspaces.skip(1);
        law_tabs_are_found_in_their_workspace(rest, id, w - 1);
        if 0 < w < workspaces.len() && find_tab_in(workspaces[w].tabs@, id) is Some && (forall|
            j: int,
        | 0 <= j < w ==> find_tab_in((#[trigger] workspaces[j]).tabs@, id) is None) {
            assert(find_tab_in(workspaces[0].tabs@, id) is None);
            assert(rest[w - 1] == workspaces[w]);
            assert forall|j: int| 0 <= j < w - 1 implies find_tab_in((#[trigger] rest[j]).tabs@, id)
                is None by {
                assert(rest[j] == workspaces[j + 1]);
            }
        }
        if forall|j: int|
            0 <= j < workspaces.len() ==> find_tab_in((#[trigger] workspaces[j]).tabs@, id) is None {
            assert(find_tab_in(workspaces[0].tabs@, id) is None);
            assert forall|j: int| 0 <= j < rest.len() implies find_tab_in(
                (#[trigger] rest[j]).tabs@,
                id,
            ) is None by {
                assert(rest[j] == workspaces[j + 1]);
            }
        }
    }
}

/// All tabs stand in the order of their workspaces.
pub proof fn law_all_tabs(workspaces: Seq<Workspace>, ws: Workspace)
    ensures
        tabs_of(Seq::empty()) == Seq::<Tab>::empty(),
        tabs_of(workspaces.push(ws)) == tabs_of(workspaces) + ws.tabs@,
{
    assert(workspaces.push(ws).drop_last() =~= workspaces);
}

/// The focus is on one workspace, and in it on one tab.
pub proof fn law_the_focus(state: AppState, w: int, t: int)
    requires
        0 <= w < state.workspaces@.len(),
        state.workspaces@[w].id == state.active_workspace,
        forall|j: int| 0 <= j < w ==> (#[trigger] state.workspaces@[j]).id
            != state.active_workspace,
    ensures
        state.active_workspace_value() == Some(state.workspaces@[w]),
        0 <= t < state.workspaces@[w].tabs@.len() && state.workspaces@[w].tabs@[t].id
            == state.workspaces@[w].active_tab && (forall|j: int|
            0 <= j < t ==> (#[trigger] state.workspaces@[w].tabs@[j]).id
                != state.workspaces@[w].active_tab) ==> state.active_tab_value() == Some(
            state.workspaces@[w].tabs@[t],
        ),
{
    law_workspaces_are_found_by_id(state.workspaces@, state.active_workspace, w);
    law_tabs_are_found_by_id(state.workspaces@[w].tabs@, state.workspaces@[w].active_tab, t);
}

/// A new workspace is empty and plain: it has its name, its repository and its identity, and
/// nothing else.
pub proof fn law_new_workspaces_are_plain(
    ws: Workspace,
    id: u32,
    name: Seq<char>,
    repo_root: Option<Seq<char>>,
    work_origin: Seq<char>,
)
    requires
        is_new_workspace(ws, id, name, repo_root, work_origin),
    ensures
        ws.id == id,
        ws.name@ == name,
        ws.work_origin@ == work_origin,
        ws.repo_root.deep_view() == repo_root,
        ws.tabs@.len() == 0,
        ws.active_tab == 0 && ws.last_active_tab is None,
        ws.working_tree_path is None && ws.branch_name is None && !ws.is_worktree,
        ws.host_config_name is None && ws.linked_issue is None,
        !ws.tmux_backed && !ws.collapsed,
{
}

} // verus!
