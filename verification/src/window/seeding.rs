//! Tabs without terminal widgets, for a program that runs without a window.

use vstd::prelude::*;
use vstd::string::*;
use crate::identity;
use crate::pane::{PaneLocationState, PaneNode, PaneProcessState, TmuxBacking};
use crate::probe::{unix_time_ms, ProbeSnapshot};
use crate::tmux::{TmuxTarget, TmuxTargetView};
use crate::workspace;
use crate::workspace::{
    key_of_pane, AppState, HeadlessPaneState, PendingTabRestore, Tab, TabKind, Workspace,
};

verus! {

/// What is known of a pane without a terminal widget.
#[derive(Debug, Clone)]
pub struct HeadlessPaneSeed {
    pub cwd: Option<String>,
    pub cwd_host: Option<String>,
    pub shell_running: bool,
    pub has_child_process: bool,
    pub remote_shell: bool,
    pub ssh_command: Option<Vec<String>>,
    pub tmux_session: Option<String>,
    pub tmux_ssh_target: Option<String>,
}

/// The tmux session of a pane, by its name and the SSH destination of its server.
pub open spec fn seeded_session(seed: HeadlessPaneSeed) -> Option<(Seq<char>, TmuxTargetView)> {
    match seed.tmux_session {
        Some(name) => Some(
            (
                name@,
                match seed.tmux_ssh_target {
                    Some(ssh_target) => TmuxTargetView::Remote { ssh_target: ssh_target@ },
                    None => TmuxTargetView::Local,
                },
            ),
        ),
        None => None,
    }
}

/// Whether a pane's state is what its seed says, found at this time.
pub open spec fn is_seeded(
    pane: HeadlessPaneState,
    seed: HeadlessPaneSeed,
    now_ms: u64,
    work_origin: Seq<char>,
) -> bool {
    &&& pane.work_origin@ == work_origin
    &&& pane.shell_running == seed.shell_running
    &&& match (pane.tmux_backing, seeded_session(seed)) {
        (Some(backing), Some((name, target))) => {
            &&& backing.session_name@ == name
            &&& backing.target.deep_view() == target
            &&& backing.expected_generation is None
            &&& backing.pane_info.is_unknown()
        },
        (None, None) => true,
        _ => false,
    }
    &&& pane.location_state == (PaneLocationState {
        cwd: seed.cwd,
        cwd_host: seed.cwd_host,
        updated_at_unix_ms: Some(now_ms),
    })
    &&& pane.process_state == (PaneProcessState {
        has_child_process: seed.has_child_process,
        remote_shell: seed.remote_shell,
        ssh_command: seed.ssh_command,
        updated_at_unix_ms: Some(now_ms),
    })
}

/// Whether a tab is a new terminal tab with this name and these panes.
pub open spec fn is_new_tab(
    tab: Tab,
    id: u32,
    name: Seq<char>,
    work_origin: Seq<char>,
    panes: PaneNode,
    focused_pane_id: u32,
    next_pane_id: u32,
) -> bool {
    &&& tab.id == id
    &&& tab.name@ == name
    &&& tab.work_origin@ == work_origin
    &&& tab.kind == TabKind::Terminal
    &&& *tab.panes == panes
    &&& tab.focused_pane_id == focused_pane_id
    &&& tab.next_pane_id == next_pane_id
    &&& !tab.needs_attention
    &&& tab.notification_msg is None
    &&& tab.discovery_cwd is None
    &&& tab.discovered_actions@.len() == 0
}

/// Whether a workspace got one more tab, which has the focus.
pub open spec fn got_tab(ws: Workspace, before: Workspace, tab: Tab) -> bool {
    &&& ws.tabs@ == before.tabs@.push(tab)
    &&& ws == (Workspace {
        tabs: ws.tabs,
        active_tab: tab.id,
        last_active_tab: if before.active_tab != 0 {
            Some(before.active_tab)
        } else {
            before.last_active_tab
        },
        ..before
    })
}

/// A new terminal tab.
fn new_tab(
    id: u32,
    name: &str,
    work_origin: String,
    panes: PaneNode,
    focused_pane_id: u32,
    next_pane_id: u32,
) -> (r: Tab)
    ensures
        is_new_tab(r, id, name@, work_origin@, panes, focused_pane_id, next_pane_id),
{
    Tab {
        id,
        name: name.to_owned(),
        work_origin,
        kind: TabKind::Terminal,
        panes: Box::new(panes),
        focused_pane_id,
        next_pane_id,
        needs_attention: false,
        notification_msg: None,
        discovery_cwd: None,
        discovered_actions: Vec::new(),
    }
}

/// Gives the workspace at this position one more tab, and both the focus.
fn add_tab(state: &mut AppState, at: usize, tab: Tab)
    requires
        at < old(state).workspaces@.len(),
    ensures
        final(state).workspaces@ == old(state).workspaces@.update(
            at as int,
            final(state).workspaces@[at as int],
        ),
        got_tab(final(state).workspaces@[at as int], old(state).workspaces@[at as int], tab),
        *final(state) == (AppState {
            workspaces: final(state).workspaces,
            active_workspace: old(state).workspaces@[at as int].id,
            ..*old(state)
        }),
{
    let ghost before = state.workspaces@;
    let id: u32 = tab.id;
    let workspace_id: u32 = state.workspaces[at].id;
    let ws = &mut state.workspaces[at];
    if ws.active_tab != 0 {
        ws.last_active_tab = Some(ws.active_tab);
    }
    ws.tabs.push(tab);
    ws.active_tab = id;
    state.active_workspace = workspace_id;
    assert(state.workspaces@ =~= before.update(at as int, state.workspaces@[at as int]));
}

/// Whether the state is the one before with a new tab in a workspace: the tab has the
/// focus, and its pane's state is what the seed says.
pub open spec fn has_seeded_tab(
    after: AppState,
    before: AppState,
    at: int,
    tab_name: Seq<char>,
    seed: HeadlessPaneSeed,
    now_ms: u64,
    pane_origin: Seq<char>,
    tab_origin: Seq<char>,
) -> bool {
    let tab_id = before.next_id;
    let pane_id = (before.next_id + 1) as u32;
    let key = workspace::pane_key(tab_id, pane_id);
    let tab = after.workspaces@[at].tabs@.last();
    &&& after.workspaces@ == before.workspaces@.update(at, after.workspaces@[at])
    &&& got_tab(after.workspaces@[at], before.workspaces@[at], tab)
    &&& is_new_tab(
        tab,
        tab_id,
        tab_name,
        tab_origin,
        PaneNode::Stub { pane_id },
        pane_id,
        (pane_id + 1) as u32,
    )
    &&& after.headless_panes@.contains_key(key)
    &&& is_seeded(after.headless_panes@[key], seed, now_ms, pane_origin)
    &&& after.headless_panes@ == before.headless_panes@.insert(key, after.headless_panes@[key])
    &&& after == (AppState {
        workspaces: after.workspaces,
        headless_panes: after.headless_panes,
        active_workspace: before.workspaces@[at].id,
        next_id: (before.next_id + 2) as u32,
        ..before
    })
}

/// Adds a tab with one pane without a terminal widget to a workspace, at this time, and
/// gives the ids of the tab and the pane. The ids are used up also where there is no such
/// workspace.
pub fn seed_headless_terminal_tab_at(
    state: &mut AppState,
    workspace_id: u32,
    tab_name: &str,
    pane: HeadlessPaneSeed,
    now_ms: u64,
    pane_origin: String,
    tab_origin: String,
) -> (r: Option<(u32, u32)>)
    requires
        old(state).next_id + 2 <= u32::MAX,
    ensures
        match workspace::find_workspace(old(state).workspaces@, workspace_id) {
            None => {
                &&& r is None
                &&& *final(state) == (AppState {
                    next_id: (old(state).next_id + 2) as u32,
                    ..*old(state)
                })
            },
            Some(_) => {
                &&& r == Some((old(state).next_id, (old(state).next_id + 1) as u32))
                &&& has_seeded_tab(
                    *final(state),
                    *old(state),
                    workspace::workspace_index(old(state).workspaces@, workspace_id) as int,
                    tab_name@,
                    pane,
                    now_ms,
                    pane_origin@,
                    tab_origin@,
                )
            },
        },
        old(state).sound() ==> final(state).sound(),
{
    broadcast use vstd::std_specs::hash::group_hash_axioms;

    let tab_id: u32 = state.next_id;
    state.next_id = state.next_id + 1;
    let pane_id: u32 = state.next_id;
    state.next_id = state.next_id + 1;
    let at: usize = match state.workspace_position(workspace_id) {
        Some(at) => at,
        None => {
            proof {
                if old(state).sound() {
                    identity::lemma_same_ids_stay_sound(*old(state), *state);
                }
            }
            return None;
        },
    };
    let ghost seed = pane;
    let tmux_backing = match pane.tmux_session {
        Some(session_name) => Some(
            TmuxBacking {
                session_name,
                target: match pane.tmux_ssh_target {
                    Some(ssh_target) => TmuxTarget::Remote { ssh_target },
                    None => TmuxTarget::Local,
                },
                expected_generation: None,
                pane_info: ProbeSnapshot::unknown(),
            },
        ),
        None => None,
    };
    let seeded = HeadlessPaneState {
        work_origin: pane_origin,
        shell_running: pane.shell_running,
        tmux_backing,
        location_state: PaneLocationState {
            cwd: pane.cwd,
            cwd_host: pane.cwd_host,
            updated_at_unix_ms: Some(now_ms),
        },
        process_state: PaneProcessState {
            has_child_process: pane.has_child_process,
            remote_shell: pane.remote_shell,
            ssh_command: pane.ssh_command,
            updated_at_unix_ms: Some(now_ms),
        },
    };
    assert(is_seeded(seeded, seed, now_ms, pane_origin@));
    state.headless_panes.insert(key_of_pane(tab_id, pane_id), seeded);
    let tab = new_tab(
        tab_id,
        tab_name,
        tab_origin,
        PaneNode::Stub { pane_id },
        pane_id,
        pane_id + 1,
    );
    let ghost added = tab;
    add_tab(state, at, tab);
    assert(state.workspaces@[at as int].tabs@.last() == added);
    proof {
        if old(state).sound() {
            assert(identity::ids_in(state.workspaces@[at as int].tabs@) =~= identity::ids_in(
                old(state).workspaces@[at as int].tabs@,
            ).push(tab_id));
            identity::lemma_new_tab_stays_sound(*old(state), *state, at as int, tab_id);
        }
    }
    Some((tab_id, pane_id))
}

/// Adds a tab with one pane without a terminal widget to a workspace, and gives the ids of
/// the tab and the pane.
pub fn seed_headless_terminal_tab(
    state: &mut AppState,
    workspace_id: u32,
    tab_name: &str,
    pane: HeadlessPaneSeed,
    pane_origin: String,
    tab_origin: String,
) -> (r: Option<(u32, u32)>)
    requires
        old(state).next_id + 2 <= u32::MAX,
    ensures
        match workspace::find_workspace(old(state).workspaces@, workspace_id) {
            None => {
                &&& r is None
                &&& *final(state) == (AppState {
                    next_id: (old(state).next_id + 2) as u32,
                    ..*old(state)
                })
            },
            Some(_) => {
                &&& r == Some((old(state).next_id, (old(state).next_id + 1) as u32))
                &&& exists|now_ms: u64| #[trigger]
                    has_seeded_tab(
                        *final(state),
                        *old(state),
                        workspace::workspace_index(old(state).workspaces@, workspace_id) as int,
                        tab_name@,
                        pane,
                        now_ms,
                        pane_origin@,
                        tab_origin@,
                    )
            },
        },
        old(state).sound() ==> final(state).sound(),
{
    let now_ms: u64 = unix_time_ms();
    seed_headless_terminal_tab_at(
        state,
        workspace_id,
        tab_name,
        pane,
        now_ms,
        pane_origin,
        tab_origin,
    )
}

/// Whether the state is the one before with a new tab in a workspace, whose panes are
/// brought back when it is first shown.
pub open spec fn has_pending_tab(
    after: AppState,
    before: AppState,
    at: int,
    tab_name: Seq<char>,
    saved: Seq<char>,
    cwd: Option<Seq<char>>,
    tab_origin: Seq<char>,
) -> bool {
    let tab_id = before.next_id;
    let tab = after.workspaces@[at].tabs@.last();
    &&& after.workspaces@ == before.workspaces@.update(at, after.workspaces@[at])
    &&& got_tab(after.workspaces@[at], before.workspaces@[at], tab)
    &&& is_new_tab(tab, tab_id, tab_name, tab_origin, PaneNode::Empty, 0, 0)
    &&& after.pending_tab_restores@.contains_key(tab_id)
    &&& after.pending_tab_restores@[tab_id].saved@ == saved
    &&& after.pending_tab_restores@[tab_id].cwd.deep_view() == cwd
    &&& !after.pending_tab_restores@[tab_id].show_restore_legend
    &&& after.pending_tab_restores@ == before.pending_tab_restores@.insert(
        tab_id,
        after.pending_tab_restores@[tab_id],
    )
    &&& after == (AppState {
        workspaces: after.workspaces,
        pending_tab_restores: after.pending_tab_restores,
        active_workspace: before.workspaces@[at].id,
        next_id: (before.next_id + 1) as u32,
        ..before
    })
}

/// Adds a tab without panes to a workspace, whose saved panes are brought back when it is
/// first shown, and gives its id. The id is used up also where there is no such workspace.
/// `saved` is kept as it is: the caller hands in the tree of panes with the identity of each
/// pane already in its normal form.
pub fn seed_pending_restore_tab(
    state: &mut AppState,
    workspace_id: u32,
    tab_name: &str,
    saved: String,
    cwd: Option<String>,
    tab_origin: String,
) -> (r: Option<u32>)
    requires
        old(state).next_id < u32::MAX,
    ensures
        match workspace::find_workspace(old(state).workspaces@, workspace_id) {
            None => {
                &&& r is None
                &&& *final(state) == (AppState {
                    next_id: (old(state).next_id + 1) as u32,
                    ..*old(state)
                })
            },
            Some(_) => {
                &&& r == Some(old(state).next_id)
                &&& has_pending_tab(
                    *final(state),
                    *old(state),
                    workspace::workspace_index(old(state).workspaces@, workspace_id) as int,
                    tab_name@,
                    saved@,
                    cwd.deep_view(),
                    tab_origin@,
                )
            },
        },
        old(state).sound() ==> final(state).sound(),
{
    broadcast use vstd::std_specs::hash::group_hash_axioms;

    let tab_id: u32 = state.next_id;
    state.next_id = state.next_id + 1;
    let at: usize = match state.workspace_position(workspace_id) {
        Some(at) => at,
        None => {
            proof {
                if old(state).sound() {
                    identity::lemma_same_ids_stay_sound(*old(state), *state);
                }
            }
            return None;
        },
    };
    let tab = new_tab(tab_id, tab_name, tab_origin, PaneNode::Empty, 0, 0);
    let ghost added = tab;
    add_tab(state, at, tab);
    assert(state.workspaces@[at as int].tabs@.last() == added);
    state.pending_tab_restores.insert(
        tab_id,
        PendingTabRestore { saved, cwd, show_restore_legend: false },
    );
    proof {
        if old(state).sound() {
            assert(identity::ids_in(state.workspaces@[at as int].tabs@) =~= identity::ids_in(
                old(state).workspaces@[at as int].tabs@,
            ).push(tab_id));
            identity::lemma_new_tab_stays_sound(*old(state), *state, at as int, tab_id);
        }
    }
    Some(tab_id)
}

/// A seeded pane has what its seed says, at the time of the seeding.
pub proof fn law_seeded_panes(
    pane: HeadlessPaneState,
    seed: HeadlessPaneSeed,
    now_ms: u64,
    work_origin: Seq<char>,
)
    requires
        is_seeded(pane, seed, now_ms, work_origin),
    ensures
        pane.work_origin@ == work_origin,
        pane.shell_running == seed.shell_running,
        pane.location_state.cwd == seed.cwd,
        pane.location_state.cwd_host == seed.cwd_host,
        pane.location_state.updated_at_unix_ms == Some(now_ms),
        pane.process_state.has_child_process == seed.has_child_process,
        pane.process_state.remote_shell == seed.remote_shell,
        pane.process_state.ssh_command == seed.ssh_command,
        pane.process_state.updated_at_unix_ms == Some(now_ms),
        seed.tmux_session is None ==> pane.tmux_backing is None,
        seed.tmux_session matches Some(name) ==> (pane.tmux_backing matches Some(backing)
            && backing.session_name@ == name@ && (seed.tmux_ssh_target is None
            ==> backing.target is Local) && (seed.tmux_ssh_target matches Some(host) ==> (
        backing.target matches crate::tmux::TmuxTarget::Remote { ssh_target } && ssh_target@
            == host@))),
{
}

/// A seeded tab stands last in its workspace and has the focus; it has its name, its identity
/// and one pane, and its ids are the next two.
pub proof fn law_seeded_tabs(
    after: AppState,
    before: AppState,
    at: int,
    tab_name: Seq<char>,
    seed: HeadlessPaneSeed,
    now_ms: u64,
    pane_origin: Seq<char>,
    tab_origin: Seq<char>,
)
    requires
        0 <= at < before.workspaces@.len(),
        has_seeded_tab(after, before, at, tab_name, seed, now_ms, pane_origin, tab_origin),
        before.next_id < u32::MAX - 2,
    ensures
        ({
            let tab = after.workspaces@[at].tabs@.last();
            &&& tab.id == before.next_id
            &&& tab.name@ == tab_name
            &&& tab.work_origin@ == tab_origin
            &&& tab.kind == TabKind::Terminal
            &&& tab.focused_pane_id == before.next_id + 1
            &&& *tab.panes == (PaneNode::Stub { pane_id: (before.next_id + 1) as u32 })
            &&& after.workspaces@[at].active_tab == tab.id
            &&& after.workspaces@[at].tabs@.len() == before.workspaces@[at].tabs@.len() + 1
            &&& after.active_workspace == before.workspaces@[at].id
            &&& after.next_id == before.next_id + 2
            &&& before.workspaces@[at].active_tab != 0 ==> after.workspaces@[at].last_active_tab
                == Some(before.workspaces@[at].active_tab)
        }),
{
}

/// A tab that waits for its panes has none, and what it will be brought back with is kept
/// under its id.
pub proof fn law_pending_tabs(
    after: AppState,
    before: AppState,
    at: int,
    tab_name: Seq<char>,
    saved: Seq<char>,
    cwd: Option<Seq<char>>,
    tab_origin: Seq<char>,
)
    requires
        0 <= at < before.workspaces@.len(),
        has_pending_tab(after, before, at, tab_name, saved, cwd, tab_origin),
        before.next_id < u32::MAX,
    ensures
        ({
            let tab = after.workspaces@[at].tabs@.last();
            &&& tab.id == before.next_id
            &&& tab.name@ == tab_name
            &&& tab.work_origin@ == tab_origin
            &&& *tab.panes is Empty
            &&& tab.kind == TabKind::Terminal
            &&& after.workspaces@[at].active_tab == tab.id
            &&& after.workspaces@[at].tabs@.len() == before.workspaces@[at].tabs@.len() + 1
            &&& after.active_workspace == before.workspaces@[at].id
            &&& after.next_id == before.next_id + 1
            &&& after.pending_tab_restores@.contains_key(tab.id)
            &&& after.pending_tab_restores@[tab.id].saved@ == saved
            &&& after.pending_tab_restores@[tab.id].cwd.deep_view() == cwd
            &&& !after.pending_tab_restores@[tab.id].show_restore_legend
        }),
{
}

/// A tab that waits for its panes changes nothing of the other workspaces, nor of the tabs
/// that wait already.
pub proof fn law_pending_tabs_leave_others_alone(
    after: AppState,
    before: AppState,
    at: int,
    tab_name: Seq<char>,
    saved: Seq<char>,
    cwd: Option<Seq<char>>,
    tab_origin: Seq<char>,
    w: int,
    other: u32,
)
    requires
        0 <= at < before.workspaces@.len(),
        has_pending_tab(after, before, at, tab_name, saved, cwd, tab_origin),
        before.next_id < u32::MAX,
    ensures
        after.workspaces@.len() == before.workspaces@.len(),
        0 <= w < before.workspaces@.len() && w != at ==> after.workspaces@[w]
            == before.workspaces@[w],
        after.workspaces@[at].id == before.workspaces@[at].id,
        after.workspaces@[at].name == before.workspaces@[at].name,
        after.workspaces@[at].tabs@.drop_last() == before.workspaces@[at].tabs@,
        other != before.next_id ==> (after.pending_tab_restores@.contains_key(other)
            <==> before.pending_tab_restores@.contains_key(other)),
        other != before.next_id && before.pending_tab_restores@.contains_key(other)
            ==> after.pending_tab_restores@[other] == before.pending_tab_restores@[other],
{
}

} // verus!
