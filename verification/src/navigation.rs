//! Going from tab to tab and from workspace to workspace, and what typed text is sent to.

use vstd::prelude::*;
use vstd::string::*;
use crate::identity;
use crate::pane;
use crate::pane::PaneNode;
use crate::workspace;
use crate::workspace::{AppState, BroadcastScope, Tab, TabKind, Workspace};

verus! {

/// The workspace with the focus on this tab. It remembers the tab that had the focus before.
pub open spec fn with_tab_focus(ws: Workspace, tab_id: u32) -> Workspace {
    Workspace {
        active_tab: tab_id,
        last_active_tab: if ws.active_tab == tab_id || ws.active_tab == 0 {
            ws.last_active_tab
        } else {
            Some(ws.active_tab)
        },
        ..ws
    }
}

/// The state with the focus on this workspace. It remembers the workspace that had the focus
/// before, and no longer shows a dashboard.
pub open spec fn with_workspace_focus(state: AppState, workspace_id: u32) -> AppState {
    AppState {
        active_workspace: workspace_id,
        last_active_workspace: if state.active_workspace == workspace_id {
            state.last_active_workspace
        } else {
            Some(state.active_workspace)
        },
        presented_dashboard: None,
        ..state
    }
}

/// Puts the focus on a tab of a workspace.
fn focus_tab(ws: &mut Workspace, tab_id: u32)
    ensures
        *final(ws) == with_tab_focus(*old(ws), tab_id),
{
    if ws.active_tab != tab_id && ws.active_tab != 0 {
        ws.last_active_tab = Some(ws.active_tab);
    }
    ws.active_tab = tab_id;
}

/// Puts the focus on a workspace.
fn focus_workspace(state: &mut AppState, workspace_id: u32)
    ensures
        *final(state) == with_workspace_focus(*old(state), workspace_id),
        old(state).sound() ==> final(state).sound(),
{
    if state.active_workspace != workspace_id {
        state.last_active_workspace = Some(state.active_workspace);
    }
    state.active_workspace = workspace_id;
    state.presented_dashboard = None;
    proof {
        if old(state).sound() {
            identity::lemma_same_ids_stay_sound(*old(state), *state);
        }
    }
}

/// The position of the first tab with this id, or the number of tabs.
pub open spec fn tab_index(tabs: Seq<Tab>, id: u32) -> nat
    decreases tabs.len(),
{
    if tabs.len() == 0 || tabs[0].id == id {
        0
    } else {
        1 + tab_index(tabs.skip(1), id)
    }
}

/// The position of the first workspace that holds this tab, or the number of workspaces.
pub open spec fn holder_index(workspaces: Seq<Workspace>, tab_id: u32) -> nat
    decreases workspaces.len(),
{
    if workspaces.len() == 0 || tab_index(workspaces[0].tabs@, tab_id) < workspaces[0].tabs@.len() {
        0
    } else {
        1 + holder_index(workspaces.skip(1), tab_id)
    }
}

/// The position of a tab among its workspace's.
fn tab_position(tabs: &Vec<Tab>, id: u32) -> (r: Option<usize>)
    ensures
        match r {
            Some(i) => i == tab_index(tabs@, id) && i < tabs@.len() && tabs@[i as int].id == id,
            None => tab_index(tabs@, id) == tabs@.len(),
        },
{
    let ghost all = tabs@;
    let mut i: usize = 0;
    assert(all.skip(0) =~= all);
    while i < tabs.len()
        invariant
            all == tabs@,
            i <= all.len(),
            i + tab_index(all.skip(i as int), id) == tab_index(all, id),
        decreases all.len() - i,
    {
        assert(all.skip(i as int).skip(1) =~= all.skip(i + 1));
        if tabs[i].id == id {
            return Some(i);
        }
        i += 1;
    }
    None
}

/// Where a tab stands: the position of its workspace, and its position there.
fn tab_place(workspaces: &Vec<Workspace>, tab_id: u32) -> (r: Option<(usize, usize)>)
    ensures
        match r {
            Some((w, t)) => {
                &&& w == holder_index(workspaces@, tab_id)
                &&& w < workspaces@.len()
                &&& t == tab_index(workspaces@[w as int].tabs@, tab_id)
                &&& t < workspaces@[w as int].tabs@.len()
                &&& workspaces@[w as int].tabs@[t as int].id == tab_id
            },
            None => holder_index(workspaces@, tab_id) == workspaces@.len(),
        },
{
    let ghost all = workspaces@;
    let mut i: usize = 0;
    assert(all.skip(0) =~= all);
    while i < workspaces.len()
        invariant
            all == workspaces@,
            i <= all.len(),
            i + holder_index(all.skip(i as int), tab_id) == holder_index(all, tab_id),
        decreases all.len() - i,
    {
        assert(all.skip(i as int).skip(1) =~= all.skip(i + 1));
        if let Some(t) = tab_position(&workspaces[i].tabs, tab_id) {
            return Some((i, t));
        }
        i += 1;
    }
    None
}

/// The workspace that a tab can be activated in: the first that holds it, unless the tab is
/// a dashboard.
pub open spec fn activation_place(workspaces: Seq<Workspace>, tab_id: u32) -> Option<int> {
    let w = holder_index(workspaces, tab_id) as int;
    if w < workspaces.len() && workspaces[w].tabs@[tab_index(
        workspaces[w].tabs@,
        tab_id,
    ) as int].kind != TabKind::Dashboard {
        Some(w)
    } else {
        None
    }
}

/// Whether the state came out of another by putting the focus on this tab of the workspace
/// at this position.
pub open spec fn tab_activated(before: AppState, after: AppState, w: int, tab_id: u32) -> bool {
    &&& after == (AppState {
        workspaces: after.workspaces,
        ..with_workspace_focus(before, before.workspaces@[w].id)
    })
    &&& after.workspaces@ == before.workspaces@.update(
        w,
        with_tab_focus(before.workspaces@[w], tab_id),
    )
}

/// Puts the focus on the tab at this place.
fn activate_at(state: &mut AppState, w: usize, tab_id: u32) -> (r: u32)
    requires
        w < old(state).workspaces@.len(),
    ensures
        r == old(state).workspaces@[w as int].id,
        tab_activated(*old(state), *final(state), w as int, tab_id),
        old(state).sound() ==> final(state).sound(),
{
    let ws = &mut state.workspaces[w];
    focus_tab(ws, tab_id);
    let id: u32 = state.workspaces[w].id;
    focus_workspace(state, id);
    proof {
        if old(state).sound() {
            identity::lemma_same_ids_stay_sound(*old(state), *state);
        }
    }
    id
}

impl AppState {
    /// Puts the focus on a tab and its workspace, and gives the workspace. A dashboard cannot
    /// get the focus.
    pub fn activate_tab(&mut self, tab_id: u32) -> (r: Option<u32>)
        ensures
            match activation_place(old(self).workspaces@, tab_id) {
                Some(w) => {
                    &&& r == Some(old(self).workspaces@[w].id)
                    &&& tab_activated(*old(self), *final(self), w, tab_id)
                },
                None => r is None && *final(self) == *old(self),
            },
            old(self).sound() ==> final(self).sound(),
    {
        match tab_place(&self.workspaces, tab_id) {
            Some((w, t)) => match self.workspaces[w].tabs[t].kind {
                TabKind::Dashboard => None,
                TabKind::Terminal => Some(activate_at(self, w, tab_id)),
            },
            None => None,
        }
    }
}

/// The place of the tab that had the focus before in the workspace with the focus, and the
/// tab.
pub open spec fn previous_tab_place(state: AppState) -> Option<(int, u32)> {
    let w = workspace::workspace_index(state.workspaces@, state.active_workspace) as int;
    if w < state.workspaces@.len() {
        match state.workspaces@[w].last_active_tab {
            Some(tab_id) => if tab_index(state.workspaces@[w].tabs@, tab_id)
                < state.workspaces@[w].tabs@.len() {
                Some((w, tab_id))
            } else {
                None
            },
            None => None,
        }
    } else {
        None
    }
}

/// The position that lies this many steps on in a circle of so many.
pub open spec fn step_in_circle(position: int, offset: int, count: int) -> int {
    (position + offset) % count
}

/// The position that lies this many steps on in a circle of so many.
fn stepped(position: usize, offset: i32, count: usize) -> (r: usize)
    requires
        position < count,
    ensures
        r == step_in_circle(position as int, offset as int, count as int),
        r < count,
{
    let count_wide: i128 = count as i128;
    let sum: i128 = position as i128 + offset as i128;
    if sum >= 0 {
        (sum % count_wide) as usize
    } else {
        let behind: i128 = (-sum) % count_wide;
        proof {
            vstd::arithmetic::div_mod::lemma_fundamental_div_mod(-(sum as int), count as int);
            let q = (-(sum as int)) / (count as int);
            if behind == 0 {
                assert(sum == (-q) * count) by (nonlinear_arith)
                    requires
                        -(sum as int) == (count as int) * q + 0,
                ;
                vstd::arithmetic::div_mod::lemma_fundamental_div_mod_converse(
                    sum as int,
                    count as int,
                    -q,
                    0,
                );
            } else {
                assert(sum == (-q - 1) * count + (count - behind)) by (nonlinear_arith)
                    requires
                        -(sum as int) == (count as int) * q + behind,
                ;
                vstd::arithmetic::div_mod::lemma_fundamental_div_mod_converse(
                    sum as int,
                    count as int,
                    -q - 1,
                    count - behind,
                );
            }
        }
        if behind == 0 {
            0
        } else {
            (count_wide - behind) as usize
        }
    }
}

impl AppState {
    /// Goes back to the tab that had the focus before in the workspace with the focus, and
    /// gives the tab.
    pub fn activate_previous_tab(&mut self) -> (r: Option<u32>)
        ensures
            match previous_tab_place(*old(self)) {
                Some((w, tab_id)) => {
                    &&& r == Some(tab_id)
                    &&& tab_activated(*old(self), *final(self), w, tab_id)
                },
                None => r is None && *final(self) == *old(self),
            },
            old(self).sound() ==> final(self).sound(),
    {
        let Some(w) = self.workspace_position(self.active_workspace) else {
            return None;
        };
        let Some(tab_id) = self.workspaces[w].last_active_tab else {
            return None;
        };
        if tab_position(&self.workspaces[w].tabs, tab_id).is_none() {
            return None;
        }
        activate_at(self, w, tab_id);
        Some(tab_id)
    }

    /// Puts the focus on a workspace, and gives it.
    pub fn activate_workspace(&mut self, workspace_id: u32) -> (r: Option<u32>)
        ensures
            r == (if workspace::find_workspace(old(self).workspaces@, workspace_id) is Some {
                Some(workspace_id)
            } else {
                None
            }),
            *final(self) == (if r is Some {
                with_workspace_focus(*old(self), workspace_id)
            } else {
                *old(self)
            }),
            old(self).sound() ==> final(self).sound(),
    {
        if self.workspace_position(workspace_id).is_none() {
            return None;
        }
        focus_workspace(self, workspace_id);
        Some(workspace_id)
    }

    /// Goes back to the workspace that had the focus before, and gives it.
    pub fn activate_previous_workspace(&mut self) -> (r: Option<u32>)
        ensures
            r == (match old(self).last_active_workspace {
                Some(id) => if workspace::find_workspace(old(self).workspaces@, id) is Some {
                    Some(id)
                } else {
                    None
                },
                None => None,
            }),
            *final(self) == (match r {
                Some(id) => with_workspace_focus(*old(self), id),
                None => *old(self),
            }),
            old(self).sound() ==> final(self).sound(),
    {
        match self.last_active_workspace {
            Some(id) => self.activate_workspace(id),
            None => None,
        }
    }

    /// Goes so many workspaces on, round and round, and gives the one that gets the focus.
    pub fn activate_workspace_relative(&mut self, offset: i32) -> (r: Option<u32>)
        ensures
            r == relative_workspace(*old(self), offset as int),
            *final(self) == (match r {
                Some(id) => with_workspace_focus(*old(self), id),
                None => *old(self),
            }),
            old(self).sound() ==> final(self).sound(),
    {
        let Some(w) = self.workspace_position(self.active_workspace) else {
            return None;
        };
        let next: usize = stepped(w, offset, self.workspaces.len());
        let id: u32 = self.workspaces[next].id;
        focus_workspace(self, id);
        Some(id)
    }
}

/// The workspace that lies this many steps on from the one with the focus.
pub open spec fn relative_workspace(state: AppState, offset: int) -> Option<u32> {
    let w = workspace::workspace_index(state.workspaces@, state.active_workspace) as int;
    if workspace::find_workspace(state.workspaces@, state.active_workspace) is Some {
        Some(state.workspaces@[step_in_circle(w, offset, state.workspaces@.len() as int)].id)
    } else {
        None
    }
}

/// The workspace without a tab to go back to.
pub open spec fn without_history(ws: Workspace) -> Workspace {
    Workspace { last_active_tab: None, ..ws }
}

/// The position of the first dashboard, or the number of tabs.
pub open spec fn dashboard_index(tabs: Seq<Tab>) -> nat
    decreases tabs.len(),
{
    if tabs.len() == 0 || tabs[0].kind == TabKind::Dashboard {
        0
    } else {
        1 + dashboard_index(tabs.skip(1))
    }
}

/// Whether there is a workspace with the focus that has no dashboard yet.
pub open spec fn lacks_dashboard(state: AppState) -> bool {
    let w = workspace::workspace_index(state.workspaces@, state.active_workspace) as int;
    &&& w < state.workspaces@.len()
    &&& dashboard_index(state.workspaces@[w].tabs@) >= state.workspaces@[w].tabs@.len()
}

/// The dashboard of a workspace.
fn dashboard_of(tabs: &Vec<Tab>) -> (r: Option<u32>)
    ensures
        r == (if dashboard_index(tabs@) < tabs@.len() {
            Some(tabs@[dashboard_index(tabs@) as int].id)
        } else {
            None
        }),
{
    let ghost all = tabs@;
    let mut i: usize = 0;
    assert(all.skip(0) =~= all);
    while i < tabs.len()
        invariant
            all == tabs@,
            i <= all.len(),
            i + dashboard_index(all.skip(i as int)) == dashboard_index(all),
        decreases all.len() - i,
    {
        assert(all.skip(i as int).skip(1) =~= all.skip(i + 1));
        if let TabKind::Dashboard = tabs[i].kind {
            return Some(tabs[i].id);
        }
        i += 1;
    }
    None
}

/// A dashboard: a tab without panes.
pub open spec fn is_dashboard(tab: Tab, id: u32, work_origin: Seq<char>) -> bool {
    &&& tab.id == id
    &&& tab.name@ == "Dashboard"@
    &&& tab.work_origin@ == work_origin
    &&& tab.kind == TabKind::Dashboard
    &&& *tab.panes is Empty
    &&& tab.focused_pane_id == 0
    &&& tab.next_pane_id == 0
    &&& !tab.needs_attention
    &&& tab.notification_msg is None
    &&& tab.discovery_cwd is None
    &&& tab.discovered_actions@.len() == 0
}

/// Whether a workspace came out of another by getting a dashboard.
pub open spec fn has_new_dashboard(
    before: Workspace,
    after: Workspace,
    id: u32,
    work_origin: Seq<char>,
) -> bool {
    &&& after == (Workspace { tabs: after.tabs, ..before })
    &&& after.tabs@.len() == before.tabs@.len() + 1
    &&& after.tabs@.drop_last() == before.tabs@
    &&& is_dashboard(after.tabs@.last(), id, work_origin)
}

impl AppState {
    /// Forgets which tabs and which workspace had the focus before.
    pub fn reset_navigation_history(&mut self)
        ensures
            *final(self) == (AppState {
                workspaces: final(self).workspaces,
                last_active_workspace: None,
                ..*old(self)
            }),
            final(self).workspaces@ == old(self).workspaces@.map_values(
                |ws: Workspace| without_history(ws),
            ),
            old(self).sound() ==> final(self).sound(),
    {
        let ghost all = self.workspaces@;
        let ghost forget = |ws: Workspace| without_history(ws);
        let ghost begin = *self;
        let mut i: usize = 0;
        while i < self.workspaces.len()
            invariant
                all == begin.workspaces@,
                forget == (|ws: Workspace| without_history(ws)),
                *self == (AppState { workspaces: self.workspaces, ..begin }),
                self.workspaces@.len() == all.len(),
                i <= all.len(),
                forall|k: int|
                    0 <= k < i ==> #[trigger] self.workspaces@[k] == without_history(all[k]),
                forall|k: int| i <= k < all.len() ==> #[trigger] self.workspaces@[k] == all[k],
            decreases all.len() - i,
        {
            let ws = &mut self.workspaces[i];
            ws.last_active_tab = None;
            i += 1;
        }
        assert(self.workspaces@ =~= all.map_values(forget));
        self.last_active_workspace = None;
        proof {
            if old(self).sound() {
                identity::lemma_same_ids_stay_sound(*old(self), *self);
            }
        }
    }

    /// The tab that is shown: the dashboard, while it is shown, else the tab with the focus.
    pub fn presented_tab_id(&self) -> (r: Option<u32>)
        ensures
            r == (match self.presented_dashboard {
                Some(id) => Some(id),
                None => match self.active_tab_value() {
                    Some(tab) => Some(tab.id),
                    None => None,
                },
            }),
    {
        match self.presented_dashboard {
            Some(id) => Some(id),
            None => match self.active_tab() {
                Some(tab) => Some(tab.id),
                None => None,
            },
        }
    }

    /// Shows the dashboard of the workspace with the focus. Where there is none yet, it is
    /// made, and its id is given. The focus stays where it is.
    pub fn create_dashboard_tab(&mut self, work_origin: String) -> (r: Option<u32>)
        requires
            lacks_dashboard(*old(self)) ==> old(self).next_id < u32::MAX,
        ensures
            ({
                let w = workspace::workspace_index(
                    old(self).workspaces@,
                    old(self).active_workspace,
                ) as int;
                let tabs = old(self).workspaces@[w].tabs@;
                let at = dashboard_index(tabs) as int;
                if w == old(self).workspaces@.len() {
                    r is None && *final(self) == *old(self)
                } else if at < tabs.len() {
                    r is None && *final(self) == (AppState {
                        presented_dashboard: Some(tabs[at].id),
                        ..*old(self)
                    })
                } else {
                    &&& r == Some(old(self).next_id)
                    &&& *final(self) == (AppState {
                        workspaces: final(self).workspaces,
                        next_id: (old(self).next_id + 1) as u32,
                        presented_dashboard: r,
                        ..*old(self)
                    })
                    &&& final(self).workspaces@.len() == old(self).workspaces@.len()
                    &&& final(self).workspaces@ == old(self).workspaces@.update(
                        w,
                        final(self).workspaces@[w],
                    )
                    &&& has_new_dashboard(
                        old(self).workspaces@[w],
                        final(self).workspaces@[w],
                        old(self).next_id,
                        work_origin@,
                    )
                }
            }),
            old(self).sound() ==> final(self).sound(),
    {
        let Some(w) = self.workspace_position(self.active_workspace) else {
            return None;
        };
        if let Some(id) = dashboard_of(&self.workspaces[w].tabs) {
            self.presented_dashboard = Some(id);
            proof {
                if old(self).sound() {
                    identity::lemma_same_ids_stay_sound(*old(self), *self);
                }
            }
            return None;
        }
        let id: u32 = self.next_id;
        self.next_id = self.next_id + 1;
        let tab = Tab {
            id,
            name: "Dashboard".to_owned(),
            work_origin,
            kind: TabKind::Dashboard,
            panes: Box::new(PaneNode::Empty),
            focused_pane_id: 0,
            next_pane_id: 0,
            needs_attention: false,
            notification_msg: None,
            discovery_cwd: None,
            discovered_actions: Vec::new(),
        };
        let ghost before = self.workspaces@[w as int].tabs@;
        let ws = &mut self.workspaces[w];
        ws.tabs.push(tab);
        assert(self.workspaces@[w as int].tabs@.drop_last() =~= before);
        self.presented_dashboard = Some(id);
        proof {
            if old(self).sound() {
                assert(identity::ids_in(self.workspaces@[w as int].tabs@) =~= identity::ids_in(
                    before,
                ).push(id));
                identity::lemma_new_tab_stays_sound(*old(self), *self, w as int, id);
            }
        }
        Some(id)
    }

    /// The panes that typed text goes to besides the focused one.
    pub fn broadcast_scope(&self) -> (r: Option<BroadcastScope>)
        ensures
            r == self.broadcast,
    {
        self.broadcast
    }

    /// Chooses the panes that typed text goes to besides the focused one.
    pub fn set_broadcast_scope(&mut self, scope: Option<BroadcastScope>)
        ensures
            *final(self) == (AppState { broadcast: scope, ..*old(self) }),
    {
        self.broadcast = scope;
    }

    /// Sends typed text to all panes of the tab, or, where it already goes to several panes,
    /// to the focused pane alone. Gives the choice.
    pub fn toggle_broadcast_shortcut_scope(&mut self) -> (r: Option<BroadcastScope>)
        ensures
            r == (if old(self).broadcast is Some {
                None
            } else {
                Some(BroadcastScope::Tab)
            }),
            *final(self) == (AppState { broadcast: r, ..*old(self) }),
    {
        self.broadcast = match self.broadcast {
            Some(_) => None,
            None => Some(BroadcastScope::Tab),
        };
        self.broadcast
    }
}

/// Why a tab was not moved.
#[derive(Clone, Copy, Debug, PartialEq, Eq, Structural)]
pub enum MoveTabError {
    TabNotFound,
    WorkspaceNotFound,
    AlreadyInWorkspace,
}

/// Why a tab cannot be moved to this workspace.
pub open spec fn move_refusal(
    workspaces: Seq<Workspace>,
    tab_id: u32,
    workspace_id: u32,
) -> Option<MoveTabError> {
    let s = holder_index(workspaces, tab_id) as int;
    if s == workspaces.len() {
        Some(MoveTabError::TabNotFound)
    } else if workspace::find_workspace(workspaces, workspace_id) is None {
        Some(MoveTabError::WorkspaceNotFound)
    } else if workspaces[s].id == workspace_id {
        Some(MoveTabError::AlreadyInWorkspace)
    } else {
        None
    }
}

/// The tab that has the focus once a tab has left: the first that is left, if it had the
/// focus.
pub open spec fn focus_after_leaving(ws: Workspace, tab_id: u32, left: Seq<Tab>) -> u32 {
    if ws.active_tab != tab_id {
        ws.active_tab
    } else if left.len() == 0 {
        0
    } else {
        left[0].id
    }
}

/// Whether a workspace came out of another by giving a tab away.
pub open spec fn gave_tab(before: Workspace, after: Workspace, tab_id: u32) -> bool {
    let focus = focus_after_leaving(before, tab_id, after.tabs@);
    &&& after == (Workspace {
        tabs: after.tabs,
        active_tab: focus,
        last_active_tab: if before.last_active_tab == Some(tab_id) || before.last_active_tab
            == Some(focus) {
            None
        } else {
            before.last_active_tab
        },
        ..before
    })
    &&& after.tabs@ == before.tabs@.remove(tab_index(before.tabs@, tab_id) as int)
}

/// Whether a workspace came out of another by getting a tab, which has the focus there.
pub open spec fn got_tab(before: Workspace, after: Workspace, tab: Tab) -> bool {
    &&& after == with_tab_focus(
        Workspace { tabs: after.tabs, collapsed: false, ..before },
        tab.id,
    )
    &&& after.tabs@ == before.tabs@.push(tab)
}

/// Whether a state came out of another by moving a tab to this workspace.
pub open spec fn tab_moved(
    before: AppState,
    after: AppState,
    tab_id: u32,
    workspace_id: u32,
) -> bool {
    let s = holder_index(before.workspaces@, tab_id) as int;
    let t = workspace::workspace_index(before.workspaces@, workspace_id) as int;
    let tab = before.workspaces@[s].tabs@[tab_index(before.workspaces@[s].tabs@, tab_id) as int];
    &&& after == (AppState {
        workspaces: after.workspaces,
        ..with_workspace_focus(before, workspace_id)
    })
    &&& after.workspaces@ == before.workspaces@.update(s, after.workspaces@[s]).update(
        t,
        after.workspaces@[t],
    )
    &&& gave_tab(before.workspaces@[s], after.workspaces@[s], tab_id)
    &&& got_tab(before.workspaces@[t], after.workspaces@[t], tab)
}

/// Takes a tab out of a workspace.
fn take_tab(ws: &mut Workspace, t: usize) -> (tab: Tab)
    requires
        t < old(ws).tabs@.len(),
        t == tab_index(old(ws).tabs@, old(ws).tabs@[t as int].id),
    ensures
        tab == old(ws).tabs@[t as int],
        gave_tab(*old(ws), *final(ws), tab.id),
{
    let tab = ws.tabs.remove(t);
    if ws.active_tab == tab.id {
        ws.active_tab = if ws.tabs.len() == 0 {
            0
        } else {
            ws.tabs[0].id
        };
    }
    if let Some(last) = ws.last_active_tab {
        if last == tab.id || last == ws.active_tab {
            ws.last_active_tab = None;
        }
    }
    tab
}

/// Puts a tab into a workspace.
fn put_tab(ws: &mut Workspace, tab: Tab)
    ensures
        got_tab(*old(ws), *final(ws), tab),
{
    let id: u32 = tab.id;
    ws.tabs.push(tab);
    ws.collapsed = false;
    focus_tab(ws, id);
}

impl AppState {
    /// Moves a tab to the end of another workspace, which shows its tabs, and puts the focus
    /// on it there.
    pub fn move_tab_to_workspace(&mut self, tab_id: u32, workspace_id: u32) -> (r: Result<
        (),
        MoveTabError,
    >)
        ensures
            match move_refusal(old(self).workspaces@, tab_id, workspace_id) {
                Some(error) => r == Err::<(), MoveTabError>(error) && *final(self) == *old(self),
                None => r is Ok && tab_moved(*old(self), *final(self), tab_id, workspace_id),
            },
            old(self).sound() ==> final(self).sound(),
    {
        let Some((s, at)) = tab_place(&self.workspaces, tab_id) else {
            return Err(MoveTabError::TabNotFound);
        };
        let Some(t) = self.workspace_position(workspace_id) else {
            return Err(MoveTabError::WorkspaceNotFound);
        };
        if self.workspaces[s].id == workspace_id {
            return Err(MoveTabError::AlreadyInWorkspace);
        }
        let source = &mut self.workspaces[s];
        let tab = take_tab(source, at);
        let target = &mut self.workspaces[t];
        put_tab(target, tab);
        proof {
            if old(self).sound() {
                identity::lemma_moved_tab_stays_sound(
                    *old(self),
                    *self,
                    s as int,
                    t as int,
                    at as int,
                );
            }
        }
        focus_workspace(self, workspace_id);
        Ok(())
    }
}

/// Going back leads to the tab that had the focus before, and going back once more leads to
/// the tab that was left.
pub proof fn law_previous_tab_goes_back_and_forth(
    start: AppState,
    there: AppState,
    back: AppState,
    w: int,
    tab_id: u32,
)
    requires
        0 <= w < start.workspaces@.len(),
        workspace::workspace_index(start.workspaces@, start.workspaces@[w].id) == w,
        tab_index(start.workspaces@[w].tabs@, tab_id) < start.workspaces@[w].tabs@.len(),
        start.workspaces@[w].active_tab != 0,
        start.workspaces@[w].active_tab != tab_id,
        tab_index(start.workspaces@[w].tabs@, start.workspaces@[w].active_tab)
            < start.workspaces@[w].tabs@.len(),
        tab_activated(start, there, w, tab_id),
        tab_id != 0,
        tab_activated(there, back, w, start.workspaces@[w].active_tab),
    ensures
        previous_tab_place(there) == Some((w, start.workspaces@[w].active_tab)),
        previous_tab_place(back) == Some((w, tab_id)),
{
    lemma_index_keeps(start.workspaces@, there.workspaces@, start.workspaces@[w].id);
    lemma_index_keeps(there.workspaces@, back.workspaces@, start.workspaces@[w].id);
}

/// The position of a workspace depends on the ids alone.
proof fn lemma_index_keeps(a: Seq<Workspace>, b: Seq<Workspace>, id: u32)
    requires
        a.len() == b.len(),
        forall|i: int| 0 <= i < a.len() ==> (#[trigger] a[i]).id == b[i].id,
    ensures
        workspace::workspace_index(a, id) == workspace::workspace_index(b, id),
    decreases a.len(),
{
    if a.len() > 0 && a[0].id != id {
        assert forall|i: int| 0 <= i < a.skip(1).len() implies (#[trigger] a.skip(1)[i]).id
            == b.skip(1)[i].id by {
            assert(a[i + 1].id == b[i + 1].id);
        }
        lemma_index_keeps(a.skip(1), b.skip(1), id);
    }
}

/// How often a tab stands among the tabs of all workspaces after one of them was replaced.
proof fn lemma_tabs_after_update(all: Seq<Workspace>, i: int, ws: Workspace, tab: Tab)
    requires
        0 <= i < all.len(),
    ensures
        workspace::tabs_of(all.update(i, ws)).to_multiset().count(tab)
            + all[i].tabs@.to_multiset().count(tab) == workspace::tabs_of(all).to_multiset().count(
            tab,
        ) + ws.tabs@.to_multiset().count(tab),
    decreases all.len(),
{
    let new = all.update(i, ws);
    vstd::seq_lib::lemma_multiset_commutative(
        workspace::tabs_of(all.drop_last()),
        all.last().tabs@,
    );
    vstd::seq_lib::lemma_multiset_commutative(
        workspace::tabs_of(new.drop_last()),
        new.last().tabs@,
    );
    if i == all.len() - 1 {
        assert(new.drop_last() =~= all.drop_last());
    } else {
        assert(new.drop_last() =~= all.drop_last().update(i, ws));
        lemma_tabs_after_update(all.drop_last(), i, ws, tab);
    }
}

/// Moving a tab loses no tab and makes none.
pub proof fn law_moving_keeps_the_tabs(
    before: AppState,
    after: AppState,
    tab_id: u32,
    workspace_id: u32,
)
    requires
        move_refusal(before.workspaces@, tab_id, workspace_id) is None,
        tab_moved(before, after, tab_id, workspace_id),
    ensures
        workspace::tabs_of(after.workspaces@).to_multiset() == workspace::tabs_of(
            before.workspaces@,
        ).to_multiset(),
{
    broadcast use vstd::seq_lib::group_to_multiset_ensures;

    lemma_places(before.workspaces@, tab_id, workspace_id);
    let all = before.workspaces@;
    let s = holder_index(all, tab_id) as int;
    let t = workspace::workspace_index(all, workspace_id) as int;
    let at = tab_index(all[s].tabs@, tab_id) as int;
    let tab = all[s].tabs@[at];
    let middle = all.update(s, after.workspaces@[s]);
    assert(after.workspaces@[s].tabs@.to_multiset().insert(tab) =~= all[s].tabs@.to_multiset());
    assert(after.workspaces@[t].tabs@.to_multiset() =~= all[t].tabs@.to_multiset().insert(tab));
    let old_tabs = workspace::tabs_of(all).to_multiset();
    let new_tabs = workspace::tabs_of(after.workspaces@).to_multiset();
    assert forall|x: Tab| #[trigger] new_tabs.count(x) == old_tabs.count(x) by {
        lemma_tabs_after_update(all, s, after.workspaces@[s], x);
        lemma_tabs_after_update(middle, t, after.workspaces@[t], x);
        assert(after.workspaces@ == middle.update(t, after.workspaces@[t]));
    }
    assert(new_tabs =~= old_tabs);
}

/// The places of a move lie within the workspaces, and differ.
proof fn lemma_places(workspaces: Seq<Workspace>, tab_id: u32, workspace_id: u32)
    requires
        move_refusal(workspaces, tab_id, workspace_id) is None,
    ensures
        ({
            let s = holder_index(workspaces, tab_id) as int;
            let t = workspace::workspace_index(workspaces, workspace_id) as int;
            &&& s < workspaces.len()
            &&& t < workspaces.len()
            &&& s != t
            &&& tab_index(workspaces[s].tabs@, tab_id) < workspaces[s].tabs@.len()
        }),
{
    lemma_holder(workspaces, tab_id);
    lemma_found(workspaces, workspace_id);
}

/// The holder of a tab is a workspace that holds it.
proof fn lemma_holder(workspaces: Seq<Workspace>, tab_id: u32)
    ensures
        ({
            let s = holder_index(workspaces, tab_id) as int;
            s <= workspaces.len() && (s < workspaces.len() ==> tab_index(
                workspaces[s].tabs@,
                tab_id,
            ) < workspaces[s].tabs@.len())
        }),
    decreases workspaces.len(),
{
    if workspaces.len() > 0 && tab_index(workspaces[0].tabs@, tab_id)
        >= workspaces[0].tabs@.len() {
        lemma_holder(workspaces.skip(1), tab_id);
    }
}

/// A workspace that is there is found at its position.
proof fn lemma_found(workspaces: Seq<Workspace>, id: u32)
    ensures
        workspace::workspace_index(workspaces, id) <= workspaces.len(),
        workspace::find_workspace(workspaces, id) is Some <==> workspace::workspace_index(
            workspaces,
            id,
        ) < workspaces.len(),
        workspace::find_workspace(workspaces, id) is Some ==> workspaces[workspace::workspace_index(
            workspaces,
            id,
        ) as int].id == id,
    decreases workspaces.len(),
{
    if workspaces.len() > 0 && workspaces[0].id != id {
        lemma_found(workspaces.skip(1), id);
    }
}

/// So many steps on and as many back lead to where they began.
pub proof fn law_steps_lead_back(position: int, offset: int, count: int)
    requires
        0 <= position < count,
    ensures
        step_in_circle(step_in_circle(position, offset, count), -offset, count) == position,
{
    vstd::arithmetic::div_mod::lemma_sub_mod_noop(position + offset, offset, count);
    vstd::arithmetic::div_mod::lemma_mod_twice(position + offset, count);
    vstd::arithmetic::div_mod::lemma_sub_mod_noop((position + offset) % count, offset, count);
    vstd::arithmetic::div_mod::lemma_small_mod(position as nat, count as nat);
}

/// Going back leads to the workspace that had the focus before, and going back once more
/// leads to the workspace that was left.
pub proof fn law_previous_workspace_goes_back_and_forth(state: AppState, workspace_id: u32)
    requires
        workspace_id != state.active_workspace,
    ensures
        ({
            let there = with_workspace_focus(state, workspace_id);
            let back = with_workspace_focus(there, state.active_workspace);
            &&& there.last_active_workspace == Some(state.active_workspace)
            &&& back.active_workspace == state.active_workspace
            &&& back.last_active_workspace == Some(workspace_id)
        }),
{
}

/// The tab once the user has come to one of its panes: the pane has the focus, if it is
/// there, and the tab asks for no attention any more. Its notification is taken back, so
/// that it can notify again.
pub open spec fn attended(tab: Tab, pane_id: u32) -> Tab {
    Tab {
        focused_pane_id: if pane::find_leaf(tab.panes.live(), pane_id) is Some {
            pane_id
        } else {
            tab.focused_pane_id
        },
        needs_attention: false,
        notification_msg: None,
        ..tab
    }
}

/// Puts the focus on a pane of a tab.
fn attend(tab: &mut Tab, pane_id: u32) -> (r: bool)
    ensures
        r == (pane::find_leaf(old(tab).panes.live(), pane_id) is Some),
        *final(tab) == attended(*old(tab), pane_id),
{
    let found = tab.panes.leaf(pane_id).is_some();
    if found {
        tab.focused_pane_id = pane_id;
    }
    tab.needs_attention = false;
    tab.notification_msg = None;
    found
}

impl AppState {
    /// Puts the focus on the pane of a tab that a notification came from, and takes the
    /// notification back. Tells whether the pane is there.
    pub fn attend_pane(&mut self, tab_id: u32, pane_id: u32) -> (r: bool)
        ensures
            ({
                let w = holder_index(old(self).workspaces@, tab_id) as int;
                if w < old(self).workspaces@.len() {
                    let ws = old(self).workspaces@[w];
                    let t = tab_index(ws.tabs@, tab_id) as int;
                    &&& r == (pane::find_leaf(ws.tabs@[t].panes.live(), pane_id) is Some)
                    &&& *final(self) == (AppState {
                        workspaces: final(self).workspaces,
                        ..*old(self)
                    })
                    &&& final(self).workspaces@ == old(self).workspaces@.update(
                        w,
                        final(self).workspaces@[w],
                    )
                    &&& final(self).workspaces@[w] == (Workspace {
                        tabs: final(self).workspaces@[w].tabs,
                        ..ws
                    })
                    &&& final(self).workspaces@[w].tabs@ == ws.tabs@.update(
                        t,
                        attended(ws.tabs@[t], pane_id),
                    )
                } else {
                    !r && *final(self) == *old(self)
                }
            }),
            old(self).sound() ==> final(self).sound(),
    {
        match tab_place(&self.workspaces, tab_id) {
            Some((w, t)) => {
                let ws = &mut self.workspaces[w];
                let tab = &mut ws.tabs[t];
                let found = attend(tab, pane_id);
                proof {
                    if old(self).sound() {
                        assert(identity::ids_in(self.workspaces@[w as int].tabs@)
                            =~= identity::ids_in(old(self).workspaces@[w as int].tabs@));
                        identity::lemma_same_ids_stay_sound(*old(self), *self);
                    }
                }
                found
            },
            None => false,
        }
    }
}

/// The first tab with an id has it.
pub proof fn lemma_first_tab(tabs: Seq<Tab>, id: u32)
    ensures
        tab_index(tabs, id) <= tabs.len(),
        tab_index(tabs, id) < tabs.len() ==> tabs[tab_index(tabs, id) as int].id == id,
    decreases tabs.len(),
{
    if tabs.len() > 0 && tabs[0].id != id {
        lemma_first_tab(tabs.skip(1), id);
    }
}

/// The first tab with an id stands no later than another with it.
pub proof fn lemma_tab_at(tabs: Seq<Tab>, id: u32, t: int)
    requires
        0 <= t < tabs.len(),
        tabs[t].id == id,
    ensures
        tab_index(tabs, id) <= t,
    decreases tabs.len(),
{
    if tabs[0].id != id {
        assert(tabs.skip(1)[t - 1] == tabs[t]);
        lemma_tab_at(tabs.skip(1), id, t - 1);
    }
}

/// The first workspace that holds a tab stands no later than another that holds it.
pub proof fn lemma_holder_at(workspaces: Seq<Workspace>, tab_id: u32, w: int)
    requires
        0 <= w < workspaces.len(),
        tab_index(workspaces[w].tabs@, tab_id) < workspaces[w].tabs@.len(),
    ensures
        holder_index(workspaces, tab_id) <= w,
        ({
            let s = holder_index(workspaces, tab_id) as int;
            tab_index(workspaces[s].tabs@, tab_id) < workspaces[s].tabs@.len()
        }),
    decreases workspaces.len(),
{
    if tab_index(workspaces[0].tabs@, tab_id) >= workspaces[0].tabs@.len() {
        assert(workspaces.skip(1)[w - 1] == workspaces[w]);
        lemma_holder_at(workspaces.skip(1), tab_id, w - 1);
    }
}

/// The focus goes to the tab that was chosen, in its workspace, and to nowhere else; the tab
/// and the workspace that had it before are remembered, and a shown dashboard is left.
pub proof fn law_activation_focuses_the_tab(
    before: AppState,
    after: AppState,
    w: int,
    tab_id: u32,
)
    requires
        0 <= w < before.workspaces@.len(),
        tab_activated(before, after, w, tab_id),
    ensures
        after.active_workspace == before.workspaces@[w].id,
        after.workspaces@[w].active_tab == tab_id,
        after.presented_dashboard is None,
        after.workspaces@.len() == before.workspaces@.len(),
        forall|i: int|
            0 <= i < before.workspaces@.len() && i != w ==> #[trigger] after.workspaces@[i]
                == before.workspaces@[i],
        after.workspaces@[w].tabs == before.workspaces@[w].tabs,
        before.active_workspace != before.workspaces@[w].id ==> after.last_active_workspace == Some(
            before.active_workspace,
        ),
        before.active_workspace == before.workspaces@[w].id ==> after.last_active_workspace
            == before.last_active_workspace,
        before.workspaces@[w].active_tab != tab_id && before.workspaces@[w].active_tab != 0
            ==> after.workspaces@[w].last_active_tab == Some(before.workspaces@[w].active_tab),
        before.workspaces@[w].active_tab == tab_id || before.workspaces@[w].active_tab == 0
            ==> after.workspaces@[w].last_active_tab == before.workspaces@[w].last_active_tab,
        after.next_id == before.next_id,
{
}

/// A tab can get the focus exactly where it is there and no dashboard, in the workspace that
/// holds it.
pub proof fn law_which_tabs_can_get_the_focus(
    workspaces: Seq<Workspace>,
    tab_id: u32,
    w: int,
    t: int,
)
    ensures
        0 <= w < workspaces.len() && 0 <= t < workspaces[w].tabs@.len() && workspaces[w].tabs@[t].id
            == tab_id && (forall|j: int| 0 <= j < t ==> (#[trigger] workspaces[w].tabs@[j]).id
            != tab_id) && (forall|v: int, j: int|
            0 <= v < w && 0 <= j < workspaces[v].tabs@.len() ==> (
            #[trigger] workspaces[v].tabs@[j]).id != tab_id) ==> {
            &&& workspaces[w].tabs@[t].kind == TabKind::Terminal ==> activation_place(
                workspaces,
                tab_id,
            ) == Some(w)
            &&& workspaces[w].tabs@[t].kind == TabKind::Dashboard ==> activation_place(
                workspaces,
                tab_id,
            ) is None
        },
        (forall|v: int, j: int|
            0 <= v < workspaces.len() && 0 <= j < workspaces[v].tabs@.len() ==> (
            #[trigger] workspaces[v].tabs@[j]).id != tab_id) ==> activation_place(
            workspaces,
            tab_id,
        ) is None,
{
    if forall|v: int, j: int|
        0 <= v < workspaces.len() && 0 <= j < workspaces[v].tabs@.len() ==> (
        #[trigger] workspaces[v].tabs@[j]).id != tab_id {
        lemma_no_holder(workspaces, tab_id);
    }
    if 0 <= w < workspaces.len() && 0 <= t < workspaces[w].tabs@.len() && workspaces[w].tabs@[t].id
        == tab_id && (forall|j: int| 0 <= j < t ==> (#[trigger] workspaces[w].tabs@[j]).id
        != tab_id) && (forall|v: int, j: int|
        0 <= v < w && 0 <= j < workspaces[v].tabs@.len() ==> (#[trigger] workspaces[v].tabs@[j]).id
            != tab_id) {
        lemma_first_tab_index(workspaces[w].tabs@, tab_id, t);
        lemma_first_holder(workspaces, tab_id, w);
    }
}

proof fn lemma_first_tab_index(tabs: Seq<Tab>, id: u32, t: int)
    requires
        0 <= t < tabs.len(),
        tabs[t].id == id,
        forall|j: int| 0 <= j < t ==> (#[trigger] tabs[j]).id != id,
    ensures
        tab_index(tabs, id) == t,
    decreases tabs.len(),
{
    if t > 0 {
        let rest = tabs.skip(1);
        assert(tabs[0].id != id);
        assert(rest[t - 1] == tabs[t]);
        assert forall|j: int| 0 <= j < t - 1 implies (#[trigger] rest[j]).id != id by {
            assert(rest[j] == tabs[j + 1]);
        }
        lemma_first_tab_index(rest, id, t - 1);
    }
}

proof fn lemma_no_tab_index(tabs: Seq<Tab>, id: u32)
    requires
        forall|j: int| 0 <= j < tabs.len() ==> (#[trigger] tabs[j]).id != id,
    ensures
        tab_index(tabs, id) == tabs.len(),
    decreases tabs.len(),
{
    if tabs.len() > 0 {
        let rest = tabs.skip(1);
        assert(tabs[0].id != id);
        assert forall|j: int| 0 <= j < rest.len() implies (#[trigger] rest[j]).id != id by {
            assert(rest[j] == tabs[j + 1]);
        }
        lemma_no_tab_index(rest, id);
    }
}

proof fn lemma_no_holder(workspaces: Seq<Workspace>, id: u32)
    requires
        forall|v: int, j: int|
            0 <= v < workspaces.len() && 0 <= j < workspaces[v].tabs@.len() ==> (
            #[trigger] workspaces[v].tabs@[j]).id != id,
    ensures
        holder_index(workspaces, id) == workspaces.len(),
    decreases workspaces.len(),
{
    if workspaces.len() > 0 {
        let rest = workspaces.skip(1);
        assert forall|j: int| 0 <= j < workspaces[0].tabs@.len() implies (
        #[trigger] workspaces[0].tabs@[j]).id != id by {}
        lemma_no_tab_index(workspaces[0].tabs@, id);
        assert forall|v: int, j: int|
            0 <= v < rest.len() && 0 <= j < rest[v].tabs@.len() implies (
        #[trigger] rest[v].tabs@[j]).id != id by {
            assert(rest[v] == workspaces[v + 1]);
            assert(workspaces[v + 1].tabs@[j].id != id);
        }
        lemma_no_holder(rest, id);
    }
}

proof fn lemma_first_holder(workspaces: Seq<Workspace>, id: u32, w: int)
    requires
        0 <= w < workspaces.len(),
        tab_index(workspaces[w].tabs@, id) < workspaces[w].tabs@.len(),
        forall|v: int, j: int|
            0 <= v < w && 0 <= j < workspaces[v].tabs@.len() ==> (
            #[trigger] workspaces[v].tabs@[j]).id != id,
    ensures
        holder_index(workspaces, id) == w,
    decreases workspaces.len(),
{
    if w > 0 {
        let rest = workspaces.skip(1);
        assert forall|j: int| 0 <= j < workspaces[0].tabs@.len() implies (
        #[trigger] workspaces[0].tabs@[j]).id != id by {}
        lemma_no_tab_index(workspaces[0].tabs@, id);
        assert(rest[w - 1] == workspaces[w]);
        assert forall|v: int, j: int|
            0 <= v < w - 1 && 0 <= j < rest[v].tabs@.len() implies (#[trigger] rest[v].tabs@[j]).id
            != id by {
            assert(rest[v] == workspaces[v + 1]);
            assert(workspaces[v + 1].tabs@[j].id != id);
        }
        lemma_first_holder(rest, id, w - 1);
    }
}

/// Going to the next workspace and the one before goes round in a circle: one step on from
/// the last leads to the first, and one back from the first to the last.
pub proof fn law_workspaces_form_a_circle(state: AppState, w: int)
    requires
        0 <= w < state.workspaces@.len(),
        state.workspaces@[w].id == state.active_workspace,
        forall|j: int| 0 <= j < w ==> (#[trigger] state.workspaces@[j]).id
            != state.active_workspace,
    ensures
        ({
            let n = state.workspaces@.len() as int;
            &&& relative_workspace(state, 0) == Some(state.active_workspace)
            &&& w + 1 < n ==> relative_workspace(state, 1) == Some(state.workspaces@[w + 1].id)
            &&& w + 1 == n ==> relative_workspace(state, 1) == Some(state.workspaces@[0].id)
            &&& w > 0 ==> relative_workspace(state, -1) == Some(state.workspaces@[w - 1].id)
            &&& w == 0 ==> relative_workspace(state, -1) == Some(state.workspaces@[n - 1].id)
        }),
{
    let n = state.workspaces@.len() as int;
    workspace::law_workspaces_are_found_by_id(state.workspaces@, state.active_workspace, w);
    vstd::arithmetic::div_mod::lemma_small_mod(w as nat, n as nat);
    if w + 1 < n {
        vstd::arithmetic::div_mod::lemma_small_mod((w + 1) as nat, n as nat);
    } else {
        vstd::arithmetic::div_mod::lemma_mod_self_0(n);
    }
    if w > 0 {
        vstd::arithmetic::div_mod::lemma_small_mod((w - 1) as nat, n as nat);
    } else {
        vstd::arithmetic::div_mod::lemma_mod_add_multiples_vanish(-1, n);
        vstd::arithmetic::div_mod::lemma_small_mod((n - 1) as nat, n as nat);
        assert(n + -1 == n - 1);
    }
}

/// The tab that had the focus before is the remembered one, while it is still there.
pub proof fn law_the_tab_before(state: AppState, w: int, t: int, id: u32)
    requires
        0 <= w < state.workspaces@.len(),
        state.workspaces@[w].id == state.active_workspace,
        forall|j: int| 0 <= j < w ==> (#[trigger] state.workspaces@[j]).id
            != state.active_workspace,
    ensures
        state.workspaces@[w].last_active_tab is None ==> previous_tab_place(state) is None,
        state.workspaces@[w].last_active_tab == Some(id) && 0 <= t < state.workspaces@[w].tabs@.len()
            && state.workspaces@[w].tabs@[t].id == id ==> previous_tab_place(state) == Some((w, id)),
        state.workspaces@[w].last_active_tab == Some(id) && (forall|j: int|
            0 <= j < state.workspaces@[w].tabs@.len() ==> (
            #[trigger] state.workspaces@[w].tabs@[j]).id != id) ==> previous_tab_place(state) is None,
{
    workspace::law_workspaces_are_found_by_id(state.workspaces@, state.active_workspace, w);
    let tabs = state.workspaces@[w].tabs@;
    if forall|j: int| 0 <= j < tabs.len() ==> (#[trigger] tabs[j]).id != id {
        lemma_no_tab_index(tabs, id);
    }
    if 0 <= t < tabs.len() && tabs[t].id == id {
        lemma_tab_at(tabs, id, t);
    }
}

/// A history that is forgotten is forgotten, and nothing else.
pub proof fn law_forgotten_histories(ws: Workspace)
    ensures
        without_history(ws).last_active_tab is None,
        without_history(ws) == (Workspace { last_active_tab: None, ..ws }),
        without_history(ws).active_tab == ws.active_tab,
        without_history(ws).tabs == ws.tabs,
{
}

/// A moved tab stands last in the workspace that it was moved to, and has the focus there; the
/// workspace is not folded any more. Where it had the focus before, the first tab that is left
/// gets it.
pub proof fn law_moved_tabs(before: AppState, after: AppState, tab_id: u32, workspace_id: u32)
    requires
        move_refusal(before.workspaces@, tab_id, workspace_id) is None,
        tab_moved(before, after, tab_id, workspace_id),
    ensures
        ({
            let s = holder_index(before.workspaces@, tab_id) as int;
            let t = workspace::workspace_index(before.workspaces@, workspace_id) as int;
            let left = after.workspaces@[s];
            let entered = after.workspaces@[t];
            &&& after.active_workspace == workspace_id
            &&& after.presented_dashboard is None
            &&& entered.tabs@.last().id == tab_id
            &&& entered.tabs@.len() == before.workspaces@[t].tabs@.len() + 1
            &&& entered.tabs@.drop_last() == before.workspaces@[t].tabs@
            &&& entered.active_tab == tab_id
            &&& !entered.collapsed
            &&& left.tabs@.len() == before.workspaces@[s].tabs@.len() - 1
            &&& before.workspaces@[s].active_tab != tab_id ==> left.active_tab
                == before.workspaces@[s].active_tab
            &&& before.workspaces@[s].active_tab == tab_id && left.tabs@.len() > 0
                ==> left.active_tab == left.tabs@[0].id
            &&& before.workspaces@[s].active_tab == tab_id && left.tabs@.len() == 0
                ==> left.active_tab == 0
            &&& left.last_active_tab != Some(tab_id)
        }),
{
    let s = holder_index(before.workspaces@, tab_id) as int;
    let t = workspace::workspace_index(before.workspaces@, workspace_id) as int;
    lemma_found(before.workspaces@, workspace_id);
    lemma_holder_holds(before.workspaces@, tab_id);
    lemma_first_tab(before.workspaces@[s].tabs@, tab_id);
    assert(s != t);
    let tab = before.workspaces@[s].tabs@[tab_index(before.workspaces@[s].tabs@, tab_id) as int];
    assert(before.workspaces@[t].tabs@.push(tab).drop_last() =~= before.workspaces@[t].tabs@);
}

proof fn lemma_holder_holds(workspaces: Seq<Workspace>, id: u32)
    ensures
        holder_index(workspaces, id) <= workspaces.len(),
        holder_index(workspaces, id) < workspaces.len() ==> tab_index(
            workspaces[holder_index(workspaces, id) as int].tabs@,
            id,
        ) < workspaces[holder_index(workspaces, id) as int].tabs@.len(),
    decreases workspaces.len(),
{
    if workspaces.len() > 0 && !(tab_index(workspaces[0].tabs@, id) < workspaces[0].tabs@.len()) {
        lemma_holder_holds(workspaces.skip(1), id);
    }
}

/// A tab is not moved where it is not there, to a workspace that is not there, or to where it
/// is already; in all other cases it is.
pub proof fn law_why_tabs_are_not_moved(
    workspaces: Seq<Workspace>,
    tab_id: u32,
    workspace_id: u32,
    w: int,
)
    ensures
        (forall|v: int, j: int|
            0 <= v < workspaces.len() && 0 <= j < workspaces[v].tabs@.len() ==> (
            #[trigger] workspaces[v].tabs@[j]).id != tab_id) ==> move_refusal(
            workspaces,
            tab_id,
            workspace_id,
        ) == Some(MoveTabError::TabNotFound),
        0 <= w < workspaces.len() && holder_index(workspaces, tab_id) == w && (forall|j: int|
            0 <= j < workspaces.len() ==> (#[trigger] workspaces[j]).id != workspace_id)
            ==> move_refusal(workspaces, tab_id, workspace_id) == Some(
            MoveTabError::WorkspaceNotFound,
        ),
        0 <= w < workspaces.len() && holder_index(workspaces, tab_id) == w && workspaces[w].id
            == workspace_id ==> move_refusal(workspaces, tab_id, workspace_id) == Some(
            MoveTabError::AlreadyInWorkspace,
        ),
        0 <= w < workspaces.len() && holder_index(workspaces, tab_id) == w && workspaces[w].id
            != workspace_id && workspace::find_workspace(workspaces, workspace_id) is Some
            ==> move_refusal(workspaces, tab_id, workspace_id) is None,
{
    workspace::law_workspaces_are_found_by_id(workspaces, workspace_id, 0);
    if forall|v: int, j: int|
        0 <= v < workspaces.len() && 0 <= j < workspaces[v].tabs@.len() ==> (
        #[trigger] workspaces[v].tabs@[j]).id != tab_id {
        lemma_no_holder(workspaces, tab_id);
    }
    if 0 <= w < workspaces.len() && workspaces[w].id == workspace_id {
        lemma_some_workspace(workspaces, workspace_id, w);
    }
}

proof fn lemma_some_workspace(workspaces: Seq<Workspace>, id: u32, w: int)
    requires
        0 <= w < workspaces.len(),
        workspaces[w].id == id,
    ensures
        workspace::find_workspace(workspaces, id) is Some,
    decreases workspaces.len(),
{
    if w > 0 && workspaces[0].id != id {
        assert(workspaces.skip(1)[w - 1] == workspaces[w]);
        lemma_some_workspace(workspaces.skip(1), id, w - 1);
    }
}

/// The dashboard of a workspace is a tab of its own kind, without panes, and there is at most
/// one more of it where there was none.
pub proof fn law_dashboards(
    before: Workspace,
    after: Workspace,
    id: u32,
    work_origin: Seq<char>,
    tabs: Seq<Tab>,
    i: int,
)
    ensures
        has_new_dashboard(before, after, id, work_origin) ==> {
            &&& after.tabs@.len() == before.tabs@.len() + 1
            &&& after.tabs@.drop_last() == before.tabs@
            &&& after.tabs@.last().id == id
            &&& after.tabs@.last().kind == TabKind::Dashboard
            &&& after.tabs@.last().name@ == "Dashboard"@
            &&& after.tabs@.last().work_origin@ == work_origin
            &&& *after.tabs@.last().panes is Empty
            &&& after.active_tab == before.active_tab
            &&& after.id == before.id
        },
        0 <= i < tabs.len() && tabs[i].kind == TabKind::Dashboard && (forall|j: int|
            0 <= j < i ==> (#[trigger] tabs[j]).kind == TabKind::Terminal) ==> dashboard_index(tabs)
            == i,
        (forall|j: int| 0 <= j < tabs.len() ==> (#[trigger] tabs[j]).kind == TabKind::Terminal)
            ==> dashboard_index(tabs) == tabs.len(),
    decreases tabs.len(),
{
    if tabs.len() > 0 {
        let rest = tabs.skip(1);
        law_dashboards(before, after, id, work_origin, rest, i - 1);
        if 0 < i < tabs.len() && tabs[i].kind == TabKind::Dashboard && (forall|j: int|
            0 <= j < i ==> (#[trigger] tabs[j]).kind == TabKind::Terminal) {
            assert(tabs[0].kind == TabKind::Terminal);
            assert(rest[i - 1] == tabs[i]);
            assert forall|j: int| 0 <= j < i - 1 implies (#[trigger] rest[j]).kind
                == TabKind::Terminal by {
                assert(rest[j] == tabs[j + 1]);
            }
        }
        if forall|j: int| 0 <= j < tabs.len() ==> (#[trigger] tabs[j]).kind == TabKind::Terminal {
            assert(tabs[0].kind == TabKind::Terminal);
            assert forall|j: int| 0 <= j < rest.len() implies (#[trigger] rest[j]).kind
                == TabKind::Terminal by {
                assert(rest[j] == tabs[j + 1]);
            }
        }
    }
}

/// A tab that was attended to has the focus on the pane, where it is there, and asks for no
/// attention; it can notify again.
pub proof fn law_attended_tabs(tab: Tab, pane_id: u32, i: int)
    ensures
        !attended(tab, pane_id).needs_attention,
        attended(tab, pane_id).notification_msg is None,
        0 <= i < tab.panes.live().len() && tab.panes.live()[i].pane_id == pane_id ==> attended(
            tab,
            pane_id,
        ).focused_pane_id == pane_id,
        (forall|j: int| 0 <= j < tab.panes.live().len() ==> (#[trigger] tab.panes.live()[j]).pane_id
            != pane_id) ==> attended(tab, pane_id).focused_pane_id == tab.focused_pane_id,
        attended(tab, pane_id).panes == tab.panes,
        attended(tab, pane_id).id == tab.id && attended(tab, pane_id).name == tab.name,
{
    pane::law_panes_are_found_by_id(tab.panes.live(), pane_id);
}

/// A dashboard is missing where no tab is one.
proof fn lemma_no_dashboard(tabs: Seq<Tab>)
    ensures
        dashboard_index(tabs) <= tabs.len(),
        dashboard_index(tabs) == tabs.len() <==> forall|i: int|
            0 <= i < tabs.len() ==> (#[trigger] tabs[i]).kind != TabKind::Dashboard,
    decreases tabs.len(),
{
    if tabs.len() > 0 {
        let rest = tabs.skip(1);
        lemma_no_dashboard(rest);
        if tabs[0].kind != TabKind::Dashboard {
            if forall|i: int| 0 <= i < tabs.len() ==> (#[trigger] tabs[i]).kind != TabKind::Dashboard {
                assert forall|i: int| 0 <= i < rest.len() implies (#[trigger] rest[i]).kind
                    != TabKind::Dashboard by {
                    assert(rest[i] == tabs[i + 1]);
                }
            }
            if forall|i: int| 0 <= i < rest.len() ==> (#[trigger] rest[i]).kind != TabKind::Dashboard {
                assert forall|i: int| 0 <= i < tabs.len() implies (#[trigger] tabs[i]).kind
                    != TabKind::Dashboard by {
                    if i > 0 {
                        assert(rest[i - 1] == tabs[i]);
                    }
                }
            }
        }
    }
}

/// A dashboard is lacking exactly where there is a workspace with the focus and
/// none of its tabs is one.
pub proof fn law_when_a_dashboard_is_lacking(state: AppState, w: int)
    requires
        0 <= w < state.workspaces@.len(),
        state.workspaces@[w].id == state.active_workspace,
        forall|v: int| 0 <= v < w ==> (#[trigger] state.workspaces@[v]).id != state.active_workspace,
    ensures
        lacks_dashboard(state) <==> forall|t: int|
            0 <= t < state.workspaces@[w].tabs@.len() ==> (
            #[trigger] state.workspaces@[w].tabs@[t]).kind != TabKind::Dashboard,
{
    workspace::law_workspaces_are_found_by_id(state.workspaces@, state.active_workspace, w);
    lemma_no_dashboard(state.workspaces@[w].tabs@);
}

} // verus!
