//! Where worktrees and command loops are shown: the workspace and the tab of each.

use vstd::prelude::*;
use vstd::string::*;
use crate::git;
use crate::git::{
    apply_git_info_to_workspace, workspace_header_label, workspace_name_from_git_info, workspace_name_from_repo, GitAsyncSubmission, GitInfo,
};
use crate::identity;
use crate::navigation;
use crate::pane::{PaneNode, SplitDirection};
use crate::text;
use crate::text::{copy_optional_text, decimal_text, same_text};
use crate::workspace;
use crate::workspace::{AppState, Tab, Workspace};

verus! {

/// Whether a workspace is still the one that it was: by its id and its identity across
/// restarts.
pub open spec fn is_workspace(ws: Workspace, id: u32, work_origin: Seq<char>) -> bool {
    ws.id == id && ws.work_origin@ == work_origin
}

/// Whether the workspace that a request came from is still there. A request that came from
/// none counts as current.
pub fn workspace_identity_is_current(
    state: &AppState,
    source_workspace: &Option<(u32, String)>,
) -> (r: bool)
    ensures
        r == match *source_workspace {
            None => true,
            Some((id, work_origin)) => exists|i: int|
                0 <= i < state.workspaces@.len() && is_workspace(
                    #[trigger] state.workspaces@[i],
                    id,
                    work_origin@,
                ),
        },
{
    match source_workspace {
        None => true,
        Some((id, work_origin)) => {
            let mut i: usize = 0;
            while i < state.workspaces.len()
                invariant
                    i <= state.workspaces.len(),
                    *source_workspace == Some((*id, *work_origin)),
                    forall|k: int|
                        0 <= k < i ==> !is_workspace(
                            #[trigger] state.workspaces@[k],
                            *id,
                            work_origin@,
                        ),
                decreases state.workspaces.len() - i,
            {
                if state.workspaces[i].id == *id && same_text(
                    state.workspaces[i].work_origin.as_str(),
                    work_origin.as_str(),
                ) {
                    assert(is_workspace(state.workspaces@[i as int], *id, work_origin@));
                    return true;
                }
                i += 1;
            }
            false
        },
    }
}

/// Whether a workspace shows the directory.
pub open spec fn shows_dir(ws: Workspace, path: Seq<char>) -> bool {
    ws.working_tree_path.deep_view() == Some(path) || ws.repo_root.deep_view() == Some(path)
}

/// The first workspace that shows the directory.
pub open spec fn workspace_of_dir(workspaces: Seq<Workspace>, path: Seq<char>) -> Option<Workspace>
    decreases workspaces.len(),
{
    if workspaces.len() == 0 {
        None
    } else if shows_dir(workspaces[0], path) {
        Some(workspaces[0])
    } else {
        workspace_of_dir(workspaces.skip(1), path)
    }
}

/// The tab of a workspace that gets the focus: the active one, else the first.
pub open spec fn front_tab(ws: Workspace) -> Option<Tab> {
    match workspace::find_tab_in(ws.tabs@, ws.active_tab) {
        Some(tab) => Some(tab),
        None => if ws.tabs@.len() > 0 {
            Some(ws.tabs@[0])
        } else {
            None
        },
    }
}

/// Whether a text is the optional one.
fn is_text(value: &Option<String>, text: &str) -> (r: bool)
    ensures
        r == (value.deep_view() == Some(text@)),
{
    match value {
        Some(value) => same_text(value.as_str(), text),
        None => false,
    }
}

/// The first workspace that shows the directory.
fn find_workspace_of_dir<'a>(state: &'a AppState, path: &str) -> (r: Option<&'a Workspace>)
    ensures
        r is Some <==> workspace_of_dir(state.workspaces@, path@) is Some,
        r matches Some(ws) ==> workspace_of_dir(state.workspaces@, path@) == Some(*ws),
{
    let ghost all = state.workspaces@;
    let mut i: usize = 0;
    assert(all.skip(0) =~= all);
    while i < state.workspaces.len()
        invariant
            all == state.workspaces@,
            i <= all.len(),
            workspace_of_dir(all.skip(i as int), path@) == workspace_of_dir(all, path@),
        decreases all.len() - i,
    {
        assert(all.skip(i as int).skip(1) =~= all.skip(i + 1));
        let ws = &state.workspaces[i];
        if is_text(&ws.working_tree_path, path) || is_text(&ws.repo_root, path) {
            return Some(ws);
        }
        i += 1;
    }
    None
}

/// The place where a worktree is shown already: the workspace and the tab.
pub open spec fn existing_place(workspaces: Seq<Workspace>, path: Seq<char>) -> Option<(u32, u32)> {
    match workspace_of_dir(workspaces, path) {
        Some(ws) => match front_tab(ws) {
            Some(tab) => Some((ws.id, tab.id)),
            None => None,
        },
        None => None,
    }
}

/// The place where a worktree is shown already: the tab of the first workspace of its
/// directory that gets the focus, where that workspace has tabs.
pub fn existing_worktree_place(state: &AppState, worktree_path: &str) -> (r: Option<(u32, u32)>)
    ensures
        r == existing_place(state.workspaces@, worktree_path@),
{
    match find_workspace_of_dir(state, worktree_path) {
        Some(ws) => {
            match ws.find_tab(ws.active_tab) {
                Some(tab) => Some((ws.id, tab.id)),
                None => {
                    if ws.tabs.len() > 0 {
                        Some((ws.id, ws.tabs[0].id))
                    } else {
                        None
                    }
                },
            }
        },
        None => None,
    }
}

/// The workspace of a worktree.
#[derive(Clone, Debug, PartialEq, Eq)]
pub enum WorktreeWorkspaceState {
    /// The worktree is shown already.
    Existing { workspace_id: u32, tab_id: u32 },
    /// A workspace was made for the worktree; it has no tab yet.
    Created { workspace_id: u32, header_label: String },
}

/// Brings the workspace of a worktree to the front, or makes one that is named after the
/// directory and marked as a worktree. Where the tab of an existing one is a dashboard, the
/// focus stays where it is.
pub fn ensure_worktree_workspace_state(
    state: &mut AppState,
    worktree_path: &str,
    work_origin: String,
) -> (r: WorktreeWorkspaceState)
    requires
        existing_place(old(state).workspaces@, worktree_path@) is None ==> old(state).next_id
            < u32::MAX,
    ensures
        match existing_place(old(state).workspaces@, worktree_path@) {
            Some((workspace_id, tab_id)) => {
                &&& r == (WorktreeWorkspaceState::Existing { workspace_id, tab_id })
                &&& match navigation::activation_place(old(state).workspaces@, tab_id) {
                    Some(w) => navigation::tab_activated(*old(state), *final(state), w, tab_id),
                    None => *final(state) == *old(state),
                }
            },
            None => {
                &&& r matches WorktreeWorkspaceState::Created { workspace_id, header_label }
                &&& workspace_id == old(state).next_id
                &&& header_label@ == git::repo_name(worktree_path@)
                &&& *final(state) == (AppState {
                    workspaces: final(state).workspaces,
                    next_id: (old(state).next_id + 1) as u32,
                    active_workspace: workspace_id,
                    ..*old(state)
                })
                &&& final(state).workspaces@.len() == old(state).workspaces@.len() + 1
                &&& final(state).workspaces@.drop_last() == old(state).workspaces@
                &&& is_worktree_workspace(
                    final(state).workspaces@.last(),
                    workspace_id,
                    worktree_path@,
                    work_origin@,
                )
            },
        },
        forall|w: int|
            0 <= w < old(state).workspaces@.len() && old(state).workspaces@[w].tabs@.len() > 0 && (
            (#[trigger] old(state).workspaces@[w]).working_tree_path.deep_view() == Some(
                worktree_path@,
            ) || old(state).workspaces@[w].repo_root.deep_view() == Some(worktree_path@)) && (
            forall|j: int|
                0 <= j < w ==> (
                #[trigger] old(state).workspaces@[j]).working_tree_path.deep_view() != Some(
                    worktree_path@,
                ) && old(state).workspaces@[j].repo_root.deep_view() != Some(worktree_path@))
                ==> final(state).workspaces@.len() == old(state).workspaces@.len() && (
            r matches WorktreeWorkspaceState::Existing { workspace_id, .. } && workspace_id
                == old(state).workspaces@[w].id),
        old(state).sound() ==> final(state).sound(),
{
    proof {
        let all = state.workspaces@;
        assert forall|w: int|
            0 <= w < all.len() && all[w].tabs@.len() > 0 && ((
            #[trigger] all[w]).working_tree_path.deep_view() == Some(worktree_path@)
                || all[w].repo_root.deep_view() == Some(worktree_path@)) && (forall|j: int|
                0 <= j < w ==> (#[trigger] all[j]).working_tree_path.deep_view() != Some(
                    worktree_path@,
                ) && all[j].repo_root.deep_view() != Some(worktree_path@)) implies (existing_place(
            all,
            worktree_path@,
        ) matches Some((id, _)) && id == all[w].id) by {
            law_open_worktrees_are_found(all, w, worktree_path@);
        }
    }
    if let Some((workspace_id, tab_id)) = existing_worktree_place(state, worktree_path) {
        let _ = state.activate_tab(tab_id);
        return WorktreeWorkspaceState::Existing { workspace_id, tab_id };
    }
    let name = workspace_name_from_repo(worktree_path);
    let workspace_id: u32 = state.create_workspace(
        name.as_str(),
        Some(worktree_path.to_owned()),
        work_origin,
    );
    let last: usize = state.workspaces.len() - 1;
    let ghost before = state.workspaces@;
    let ws = &mut state.workspaces[last];
    ws.is_worktree = true;
    ws.working_tree_path = Some(worktree_path.to_owned());
    assert(state.workspaces@.drop_last() =~= before.drop_last());
    proof {
        if old(state).sound() {
            identity::lemma_new_workspace_stays_sound(*old(state), *state);
        }
    }
    WorktreeWorkspaceState::Created { workspace_id, header_label: name }
}

/// A workspace that was made for a worktree.
pub open spec fn is_worktree_workspace(
    ws: Workspace,
    id: u32,
    path: Seq<char>,
    work_origin: Seq<char>,
) -> bool {
    &&& ws.id == id
    &&& ws.name@ == git::repo_name(path)
    &&& ws.work_origin@ == work_origin
    &&& ws.tabs@.len() == 0
    &&& ws.active_tab == 0
    &&& ws.last_active_tab is None
    &&& ws.repo_root.deep_view() == Some(path)
    &&& ws.working_tree_path.deep_view() == Some(path)
    &&& ws.branch_name is None
    &&& ws.is_worktree
    &&& ws.host_config_name is None
    &&& ws.linked_issue is None
    &&& !ws.tmux_backed
    &&& !ws.collapsed
}

/// A workspace of a worktree that has a tab is where the worktree is opened: no second one
/// is made for it.
pub proof fn law_a_worktree_is_opened_once(
    workspaces: Seq<Workspace>,
    opened: Workspace,
    tab: Tab,
    path: Seq<char>,
)
    requires
        workspace_of_dir(workspaces, path) is None,
        shows_dir(opened, path),
        opened.tabs@ == seq![tab],
    ensures
        existing_place(workspaces.push(opened), path) == Some((opened.id, tab.id)),
{
    lemma_found_at_the_end(workspaces, opened, path);
    assert(opened.tabs@.skip(1).len() == 0);
    assert(workspace::find_tab_in(opened.tabs@.skip(1), opened.active_tab) is None);
    assert(front_tab(opened) == Some(tab));
}

/// A workspace behind those that do not show the directory is found.
proof fn lemma_found_at_the_end(workspaces: Seq<Workspace>, ws: Workspace, path: Seq<char>)
    requires
        workspace_of_dir(workspaces, path) is None,
        shows_dir(ws, path),
    ensures
        workspace_of_dir(workspaces.push(ws), path) == Some(ws),
    decreases workspaces.len(),
{
    if workspaces.len() > 0 {
        lemma_found_at_the_end(workspaces.skip(1), ws, path);
        assert(workspaces.push(ws).skip(1) =~= workspaces.skip(1).push(ws));
    }
}

/// The first workspace whose worktree this is.
pub open spec fn workspace_with_worktree(workspaces: Seq<Workspace>, path: Seq<char>) -> Option<u32>
    decreases workspaces.len(),
{
    if workspaces.len() == 0 {
        None
    } else if workspaces[0].working_tree_path.deep_view() == Some(path) {
        Some(workspaces[0].id)
    } else {
        workspace_with_worktree(workspaces.skip(1), path)
    }
}

/// The workspace to close when the worktree was removed.
pub fn workspace_of_removed_worktree(state: &AppState, worktree_path: &str) -> (r: Option<u32>)
    ensures
        r == workspace_with_worktree(state.workspaces@, worktree_path@),
{
    let ghost all = state.workspaces@;
    let mut i: usize = 0;
    assert(all.skip(0) =~= all);
    while i < state.workspaces.len()
        invariant
            all == state.workspaces@,
            i <= all.len(),
            workspace_with_worktree(all.skip(i as int), worktree_path@) == workspace_with_worktree(
                all,
                worktree_path@,
            ),
        decreases all.len() - i,
    {
        assert(all.skip(i as int).skip(1) =~= all.skip(i + 1));
        if is_text(&state.workspaces[i].working_tree_path, worktree_path) {
            return Some(state.workspaces[i].id);
        }
        i += 1;
    }
    None
}

/// Makes the default workspace where none is left, and gives its id.
pub fn ensure_default_workspace(state: &mut AppState, work_origin: String) -> (r: Option<u32>)
    requires
        old(state).workspaces@.len() == 0 ==> old(state).next_id < u32::MAX,
    ensures
        old(state).workspaces@.len() > 0 ==> r is None && *final(state) == *old(state),
        old(state).workspaces@.len() == 0 ==> {
            &&& r == Some(old(state).next_id)
            &&& final(state).workspaces@.len() == 1
            &&& workspace::is_new_workspace(
                final(state).workspaces@[0],
                old(state).next_id,
                "default"@,
                None,
                work_origin@,
            )
            &&& *final(state) == (AppState {
                workspaces: final(state).workspaces,
                next_id: (old(state).next_id + 1) as u32,
                active_workspace: old(state).next_id,
                ..*old(state)
            })
        },
        old(state).sound() ==> final(state).sound(),
{
    if state.workspaces.len() > 0 {
        return None;
    }
    let id: u32 = state.create_workspace("default", None, work_origin);
    Some(id)
}

/// Whether a workspace is still the one that it was, and shows the worktree, if one is
/// named.
pub open spec fn is_workspace_at(
    ws: Workspace,
    id: u32,
    work_origin: Seq<char>,
    path: Option<Seq<char>>,
) -> bool {
    is_workspace(ws, id, work_origin) && (path is None || ws.working_tree_path.deep_view() == path)
}

/// The position of the first workspace that is still the one that it was.
pub open spec fn position_of(
    workspaces: Seq<Workspace>,
    id: u32,
    work_origin: Seq<char>,
    path: Option<Seq<char>>,
) -> nat
    decreases workspaces.len(),
{
    if workspaces.len() == 0 || is_workspace_at(workspaces[0], id, work_origin, path) {
        0
    } else {
        1 + position_of(workspaces.skip(1), id, work_origin, path)
    }
}

/// The position of the first workspace that is still the one that it was.
fn find_position(state: &AppState, id: u32, work_origin: &str, path: Option<&str>) -> (r: usize)
    ensures
        ({
            let wanted = match path {
                Some(path) => Some(path@),
                None => None,
            };
            &&& r == position_of(state.workspaces@, id, work_origin@, wanted)
            &&& r <= state.workspaces@.len()
        }),
{
    let ghost all = state.workspaces@;
    let ghost wanted: Option<Seq<char>> = match path {
        Some(path) => Some(path@),
        None => None,
    };
    let mut i: usize = 0;
    assert(all.skip(0) =~= all);
    while i < state.workspaces.len()
        invariant
            all == state.workspaces@,
            wanted == match path {
                Some(path) => Some(path@),
                None => None,
            },
            i <= all.len(),
            i + position_of(all.skip(i as int), id, work_origin@, wanted) == position_of(
                all,
                id,
                work_origin@,
                wanted,
            ),
        decreases all.len() - i,
    {
        assert(all.skip(i as int).skip(1) =~= all.skip(i + 1));
        let ws = &state.workspaces[i];
        let there = match path {
            Some(path) => is_text(&ws.working_tree_path, path),
            None => true,
        };
        if there && ws.id == id && same_text(ws.work_origin.as_str(), work_origin) {
            return i;
        }
        i += 1;
    }
    i
}

/// Whether the workspace holds what git reported.
pub open spec fn holds_git_info(ws: Workspace, before: Workspace, info: git::GitInfoView) -> bool {
    &&& ws.repo_root.deep_view() == info.repo_root
    &&& ws.branch_name.deep_view() == info.branch
    &&& ws.is_worktree == info.linked()
    &&& ws.working_tree_path.deep_view() == info.worktree_path()
    &&& ws == (Workspace {
        repo_root: ws.repo_root,
        branch_name: ws.branch_name,
        is_worktree: ws.is_worktree,
        working_tree_path: ws.working_tree_path,
        ..before
    })
}

/// The heading of a workspace with what git reported.
pub open spec fn heading(name: Seq<char>, info: git::GitInfoView) -> Seq<char> {
    if info.status().len() == 0 {
        name
    } else {
        name + "  "@ + info.status()
    }
}

/// Takes over what git reported of a workspace's checkout, if the workspace is still there,
/// and gives its new heading.
pub fn apply_workspace_discovery(
    state: &mut AppState,
    workspace_id: u32,
    work_origin: &str,
    git_info: &GitInfo,
) -> (r: Option<String>)
    ensures
        ({
            let at = position_of(
                old(state).workspaces@,
                workspace_id,
                work_origin@,
                None,
            ) as int;
            if at < old(state).workspaces@.len() {
                let before = old(state).workspaces@[at];
                &&& r.deep_view() == Some(heading(before.name@, git_info.deep_view()))
                &&& final(state).workspaces@ == old(state).workspaces@.update(
                    at,
                    final(state).workspaces@[at],
                )
                &&& holds_git_info(final(state).workspaces@[at], before, git_info.deep_view())
                &&& *final(state) == (AppState {
                    workspaces: final(state).workspaces,
                    ..*old(state)
                })
            } else {
                r is None && *final(state) == *old(state)
            }
        }),
        old(state).sound() ==> final(state).sound(),
{
    let at: usize = find_position(state, workspace_id, work_origin, None);
    if at >= state.workspaces.len() {
        return None;
    }
    let ghost before = state.workspaces@;
    let ws = &mut state.workspaces[at];
    apply_git_info_to_workspace(ws, git_info);
    let label = workspace_header_label(ws.name.as_str(), git_info);
    assert(state.workspaces@ =~= before.update(at as int, state.workspaces@[at as int]));
    proof {
        if old(state).sound() {
            identity::lemma_same_ids_stay_sound(*old(state), *state);
        }
    }
    Some(label)
}

/// Whether the workspace of a worktree holds what git reported. It stays a worktree at its
/// path, and keeps the repository that the request named.
pub open spec fn holds_worktree_info(
    ws: Workspace,
    before: Workspace,
    info: git::GitInfoView,
    path: Seq<char>,
    repo_root: Option<Seq<char>>,
) -> bool {
    &&& ws.repo_root.deep_view() == if repo_root is Some {
        repo_root
    } else {
        info.repo_root
    }
    &&& ws.branch_name.deep_view() == info.branch
    &&& ws.is_worktree
    &&& ws.working_tree_path.deep_view() == Some(path)
    &&& ws == (Workspace {
        repo_root: ws.repo_root,
        branch_name: ws.branch_name,
        is_worktree: ws.is_worktree,
        working_tree_path: ws.working_tree_path,
        ..before
    })
}

/// Takes over what git reported of a worktree, if its workspace is still there and still
/// shows the worktree, and gives the workspace's new heading.
pub fn apply_worktree_discovery(
    state: &mut AppState,
    workspace_id: u32,
    work_origin: &str,
    worktree_path: &str,
    repo_root_override: &Option<String>,
    git_info: &GitInfo,
) -> (r: Option<String>)
    ensures
        ({
            let at = position_of(
                old(state).workspaces@,
                workspace_id,
                work_origin@,
                Some(worktree_path@),
            ) as int;
            if at < old(state).workspaces@.len() {
                let before = old(state).workspaces@[at];
                &&& r.deep_view() == Some(heading(before.name@, git_info.deep_view()))
                &&& final(state).workspaces@ == old(state).workspaces@.update(
                    at,
                    final(state).workspaces@[at],
                )
                &&& holds_worktree_info(
                    final(state).workspaces@[at],
                    before,
                    git_info.deep_view(),
                    worktree_path@,
                    repo_root_override.deep_view(),
                )
                &&& *final(state) == (AppState {
                    workspaces: final(state).workspaces,
                    ..*old(state)
                })
            } else {
                r is None && *final(state) == *old(state)
            }
        }),
        old(state).sound() ==> final(state).sound(),
{
    let at: usize = find_position(state, workspace_id, work_origin, Some(worktree_path));
    if at >= state.workspaces.len() {
        return None;
    }
    let ghost before = state.workspaces@;
    let ws = &mut state.workspaces[at];
    apply_git_info_to_workspace(ws, git_info);
    if repo_root_override.is_some() {
        ws.repo_root = copy_optional_text(repo_root_override);
    }
    ws.is_worktree = true;
    ws.working_tree_path = Some(worktree_path.to_owned());
    let label = workspace_header_label(ws.name.as_str(), git_info);
    assert(state.workspaces@ =~= before.update(at as int, state.workspaces@[at as int]));
    proof {
        if old(state).sound() {
            identity::lemma_same_ids_stay_sound(*old(state), *state);
        }
    }
    Some(label)
}

/// The workspace that command loops run in.
pub const LOOPS_WORKSPACE_NAME: &'static str = "Loops";

/// How many panes of one tab run command loops.
pub const MAX_LOOP_PANES_PER_TAB: usize = 4;

/// Where the next command loop runs.
#[derive(Clone, Copy, Debug, PartialEq, Eq, Structural)]
pub enum LoopDispatch {
    /// In a new tab.
    NewTab,
    /// In a new pane of this tab.
    SplitActiveTab { tab_id: u32 },
}

/// Whether a command loop gets a pane in the active tab: there is one, and it has room.
pub fn should_split(active_tab_pane_count: Option<usize>, max_panes: usize) -> (r: bool)
    ensures
        r == match active_tab_pane_count {
            Some(n) => n < max_panes,
            None => false,
        },
{
    match active_tab_pane_count {
        Some(n) => n < max_panes,
        None => false,
    }
}

/// The first workspace of this name.
pub open spec fn workspace_named(workspaces: Seq<Workspace>, name: Seq<char>) -> Option<Workspace>
    decreases workspaces.len(),
{
    if workspaces.len() == 0 {
        None
    } else if workspaces[0].name@ == name {
        Some(workspaces[0])
    } else {
        workspace_named(workspaces.skip(1), name)
    }
}

/// The first workspace of this name.
fn find_workspace_named<'a>(state: &'a AppState, name: &str) -> (r: Option<&'a Workspace>)
    ensures
        r is Some <==> workspace_named(state.workspaces@, name@) is Some,
        r matches Some(ws) ==> workspace_named(state.workspaces@, name@) == Some(*ws),
{
    let ghost all = state.workspaces@;
    let mut i: usize = 0;
    assert(all.skip(0) =~= all);
    while i < state.workspaces.len()
        invariant
            all == state.workspaces@,
            i <= all.len(),
            workspace_named(all.skip(i as int), name@) == workspace_named(all, name@),
        decreases all.len() - i,
    {
        assert(all.skip(i as int).skip(1) =~= all.skip(i + 1));
        if same_text(state.workspaces[i].name.as_str(), name) {
            return Some(&state.workspaces[i]);
        }
        i += 1;
    }
    None
}

/// The active tab of the workspace for command loops.
pub open spec fn active_loop_tab(workspaces: Seq<Workspace>) -> Option<Tab> {
    match workspace_named(workspaces, "Loops"@) {
        Some(ws) => workspace::find_tab_in(ws.tabs@, ws.active_tab),
        None => None,
    }
}

/// The number of panes in a tree, counted up to a limit.
fn panes_up_to(tree: &PaneNode, limit: usize) -> (r: usize)
    ensures
        r == if tree.slots().len() < limit {
            tree.slots().len() as usize
        } else {
            limit
        },
    decreases tree,
{
    match tree {
        PaneNode::Leaf(_) => {
            if limit == 0 {
                0
            } else {
                1
            }
        },
        PaneNode::Split { first, second, .. } => {
            let before: usize = panes_up_to(first, limit);
            before + panes_up_to(second, limit - before)
        },
        PaneNode::Stub { .. } => {
            if limit == 0 {
                0
            } else {
                1
            }
        },
        PaneNode::Empty => 0,
    }
}

/// Where the next command loop runs: in a new pane of the active tab of the workspace for
/// command loops while that tab has room, else in a new tab.
pub fn plan_loop_dispatch(state: &AppState, max_panes: usize) -> (r: LoopDispatch)
    ensures
        r == match active_loop_tab(state.workspaces@) {
            Some(tab) => if tab.panes.slots().len() < max_panes {
                LoopDispatch::SplitActiveTab { tab_id: tab.id }
            } else {
                LoopDispatch::NewTab
            },
            None => LoopDispatch::NewTab,
        },
{
    let active_tab = match find_workspace_named(state, LOOPS_WORKSPACE_NAME) {
        Some(ws) => ws.find_tab(ws.active_tab),
        None => None,
    };
    match active_tab {
        Some(tab) => {
            if should_split(Some(panes_up_to(&tab.panes, max_panes)), max_panes) {
                LoopDispatch::SplitActiveTab { tab_id: tab.id }
            } else {
                LoopDispatch::NewTab
            }
        },
        None => LoopDispatch::NewTab,
    }
}

/// The workspace for command loops, which is made where there is none.
pub fn ensure_loops_workspace(state: &mut AppState, work_origin: String) -> (r: u32)
    requires
        workspace_named(old(state).workspaces@, "Loops"@) is None ==> old(state).next_id
            < u32::MAX,
    ensures
        match workspace_named(old(state).workspaces@, "Loops"@) {
            Some(ws) => r == ws.id && *final(state) == *old(state),
            None => {
                &&& r == old(state).next_id
                &&& *final(state) == (AppState {
                    workspaces: final(state).workspaces,
                    next_id: (old(state).next_id + 1) as u32,
                    active_workspace: r,
                    ..*old(state)
                })
                &&& final(state).workspaces@.len() == old(state).workspaces@.len() + 1
                &&& final(state).workspaces@.drop_last() == old(state).workspaces@
                &&& workspace::is_new_workspace(
                    final(state).workspaces@.last(),
                    r,
                    "Loops"@,
                    None,
                    work_origin@,
                )
            },
        },
        old(state).sound() ==> final(state).sound(),
{
    if let Some(ws) = find_workspace_named(state, LOOPS_WORKSPACE_NAME) {
        return ws.id;
    }
    state.create_workspace(LOOPS_WORKSPACE_NAME, None, work_origin)
}

/// The direction in which the tab for command loops is split next: in turn, so that the
/// panes form a grid.
pub fn loop_split_direction(pane_count: usize) -> (r: SplitDirection)
    ensures
        r == if pane_count % 2 == 1 {
            SplitDirection::Vertical
        } else {
            SplitDirection::Horizontal
        },
{
    if pane_count % 2 == 1 {
        SplitDirection::Vertical
    } else {
        SplitDirection::Horizontal
    }
}

/// The name that a checkout gives its workspace.
pub open spec fn discovered_name(before: Seq<char>, info: git::GitInfoView) -> Seq<char> {
    match info.root() {
        Some(root) => git::repo_name(root),
        None => before,
    }
}

/// Takes over what git reported of the checkout of a workspace that was just made, if the
/// workspace is still there: the workspace is named after the checkout. Gives the new
/// heading.
pub fn apply_new_workspace_discovery(
    state: &mut AppState,
    workspace_id: u32,
    work_origin: &str,
    git_info: &GitInfo,
) -> (r: Option<String>)
    ensures
        ({
            let at = position_of(
                old(state).workspaces@,
                workspace_id,
                work_origin@,
                None,
            ) as int;
            if at < old(state).workspaces@.len() {
                let before = old(state).workspaces@[at];
                let after = final(state).workspaces@[at];
                let name = discovered_name(before.name@, git_info.deep_view());
                &&& r.deep_view() == Some(heading(name, git_info.deep_view()))
                &&& final(state).workspaces@ == old(state).workspaces@.update(at, after)
                &&& after.name@ == name
                &&& holds_git_info(
                    after,
                    (Workspace { name: after.name, ..before }),
                    git_info.deep_view(),
                )
                &&& *final(state) == (AppState {
                    workspaces: final(state).workspaces,
                    ..*old(state)
                })
            } else {
                r is None && *final(state) == *old(state)
            }
        }),
        old(state).sound() ==> final(state).sound(),
{
    let at: usize = find_position(state, workspace_id, work_origin, None);
    if at >= state.workspaces.len() {
        return None;
    }
    let ghost before = state.workspaces@;
    let ws = &mut state.workspaces[at];
    apply_git_info_to_workspace(ws, git_info);
    if let Some(name) = workspace_name_from_git_info(git_info) {
        ws.name = name;
    }
    let label = workspace_header_label(ws.name.as_str(), git_info);
    assert(state.workspaces@ =~= before.update(at as int, state.workspaces@[at as int]));
    proof {
        if old(state).sound() {
            identity::lemma_same_ids_stay_sound(*old(state), *state);
        }
    }
    Some(label)
}

/// A workspace at the end is found by its name where no other has it.
proof fn lemma_named_at_the_end(workspaces: Seq<Workspace>, ws: Workspace, name: Seq<char>)
    requires
        workspace_named(workspaces, name) is None,
        ws.name@ == name,
    ensures
        workspace_named(workspaces.push(ws), name) == Some(ws),
    decreases workspaces.len(),
{
    let all = workspaces.push(ws);
    if workspaces.len() == 0 {
        assert(all[0] == ws);
    } else {
        assert(all[0] == workspaces[0]);
        assert(all.skip(1) =~= workspaces.skip(1).push(ws));
        lemma_named_at_the_end(workspaces.skip(1), ws, name);
    }
}

/// The workspace for command loops is made once: it is found where it was made.
pub proof fn law_the_loops_workspace_is_made_once(
    before: Seq<Workspace>,
    after: Seq<Workspace>,
    id: u32,
    work_origin: Seq<char>,
)
    requires
        workspace_named(before, "Loops"@) is None,
        after.len() == before.len() + 1,
        after.drop_last() == before,
        workspace::is_new_workspace(after.last(), id, "Loops"@, None, work_origin),
    ensures
        workspace_named(after, "Loops"@) == Some(after.last()),
        after.last().id == id,
{
    lemma_named_at_the_end(before, after.last(), "Loops"@);
    assert(before.push(after.last()) =~= after);
}

/// Names the repository of a workspace, where a request names one.
pub fn scope_workspace_to_repo(
    state: &mut AppState,
    workspace_id: u32,
    repo_root: &Option<String>,
)
    ensures
        ({
            let at = workspace::workspace_index(old(state).workspaces@, workspace_id) as int;
            if repo_root is Some && at < old(state).workspaces@.len() {
                let before = old(state).workspaces@[at];
                let after = final(state).workspaces@[at];
                &&& *final(state) == (AppState {
                    workspaces: final(state).workspaces,
                    ..*old(state)
                })
                &&& final(state).workspaces@ == old(state).workspaces@.update(at, after)
                &&& after == (Workspace { repo_root: after.repo_root, ..before })
                &&& after.repo_root.deep_view() == repo_root.deep_view()
            } else {
                *final(state) == *old(state)
            }
        }),
        old(state).sound() ==> final(state).sound(),
{
    if repo_root.is_none() {
        return ;
    }
    if let Some(at) = state.workspace_position(workspace_id) {
        let ghost before = state.workspaces@;
        let ws = &mut state.workspaces[at];
        ws.repo_root = copy_optional_text(repo_root);
        assert(state.workspaces@ =~= before.update(at as int, state.workspaces@[at as int]));
        proof {
            if old(state).sound() {
                identity::lemma_same_ids_stay_sound(*old(state), *state);
            }
        }
    }
}

/// Where a command loop runs once a tab was asked to split for it: in the new pane, or in a
/// new tab where there is none.
#[derive(Clone, Copy, Debug, PartialEq, Eq, Structural)]
pub enum LoopPlace {
    Pane { tab_id: u32, pane_id: u32 },
    NewTab,
}

/// Where a command loop runs once a tab was asked to split for it. `pane_id` is the new
/// pane.
pub fn place_after_split(tab_id: u32, pane_id: Option<u32>) -> (r: LoopPlace)
    ensures
        r == match pane_id {
            Some(pane_id) => LoopPlace::Pane { tab_id, pane_id },
            None => LoopPlace::NewTab,
        },
{
    match pane_id {
        Some(pane_id) => LoopPlace::Pane { tab_id, pane_id },
        None => LoopPlace::NewTab,
    }
}

/// Why git is asked about the checkout of a workspace.
#[derive(Clone, Copy, Debug, PartialEq, Eq, Structural)]
pub enum DiscoveryReason {
    NewWorkspace,
    RestoredWorkspace,
    TemplateWorkspace,
    WorktreeWorkspace,
}

/// What the worker queue knows the request by.
pub open spec fn discovery_request(
    reason: DiscoveryReason,
    workspace_id: u32,
    path: Seq<char>,
) -> Seq<char> {
    let number = text::decimal(workspace_id as nat);
    match reason {
        DiscoveryReason::NewWorkspace => "discover:new-workspace:"@ + number,
        DiscoveryReason::RestoredWorkspace => "discover:restore-workspace:"@ + number,
        DiscoveryReason::TemplateWorkspace => "discover:template-workspace:"@ + number,
        DiscoveryReason::WorktreeWorkspace => "discover:worktree-workspace:"@ + number + ":"@
            + path,
    }
}

/// What the worker queue knows the request by.
pub fn discovery_key(reason: DiscoveryReason, workspace_id: u32, path: &str) -> (r: String)
    ensures
        r@ == discovery_request(reason, workspace_id, path@),
{
    let number = decimal_text(workspace_id as u64);
    let mut r = match reason {
        DiscoveryReason::NewWorkspace => "discover:new-workspace:".to_owned(),
        DiscoveryReason::RestoredWorkspace => "discover:restore-workspace:".to_owned(),
        DiscoveryReason::TemplateWorkspace => "discover:template-workspace:".to_owned(),
        DiscoveryReason::WorktreeWorkspace => "discover:worktree-workspace:".to_owned(),
    };
    r.append(number.as_str());
    if let DiscoveryReason::WorktreeWorkspace = reason {
        r.append(":");
        r.append(path);
    }
    r
}

/// What the user is told where the request did not begin for want of room; a request that
/// is running already needs no word.
pub fn discovery_busy_notice(reason: DiscoveryReason, submission: GitAsyncSubmission) -> (r: Option<
    String,
>)
    ensures
        r.deep_view() == if submission == GitAsyncSubmission::Saturated {
            Some(
                match reason {
                    DiscoveryReason::NewWorkspace =>
                    "Git metadata refresh is busy; workspace details will refresh later"@,
                    DiscoveryReason::RestoredWorkspace =>
                    "Git metadata refresh is busy; restored workspace details will refresh later"@,
                    DiscoveryReason::TemplateWorkspace =>
                    "Git metadata refresh is busy; template workspace details will refresh later"@,
                    DiscoveryReason::WorktreeWorkspace =>
                    "Git metadata refresh is busy; worktree details will refresh later"@,
                },
            )
        } else {
            None
        },
{
    if submission != GitAsyncSubmission::Saturated {
        return None;
    }
    let message = match reason {
        DiscoveryReason::NewWorkspace =>
        "Git metadata refresh is busy; workspace details will refresh later",
        DiscoveryReason::RestoredWorkspace =>
        "Git metadata refresh is busy; restored workspace details will refresh later",
        DiscoveryReason::TemplateWorkspace =>
        "Git metadata refresh is busy; template workspace details will refresh later",
        DiscoveryReason::WorktreeWorkspace =>
        "Git metadata refresh is busy; worktree details will refresh later",
    };
    Some(message.to_owned())
}

/// A worktree that a workspace with tabs shows, as its worktree or as its repository, is
/// opened there: in the first such workspace, at the tab that has the focus in it, or else at
/// its first tab.
pub proof fn law_open_worktrees_are_found(workspaces: Seq<Workspace>, w: int, path: Seq<char>)
    requires
        0 <= w < workspaces.len(),
        workspaces[w].tabs@.len() > 0,
        workspaces[w].working_tree_path.deep_view() == Some(path)
            || workspaces[w].repo_root.deep_view() == Some(path),
        forall|j: int|
            0 <= j < w ==> (#[trigger] workspaces[j]).working_tree_path.deep_view() != Some(path)
                && workspaces[j].repo_root.deep_view() != Some(path),
    ensures
        existing_place(workspaces, path) matches Some((workspace_id, tab_id)) && workspace_id
            == workspaces[w].id && (exists|t: int|
            0 <= t < workspaces[w].tabs@.len() && (#[trigger] workspaces[w].tabs@[t]).id == tab_id
                && (tab_id == workspaces[w].active_tab || t == 0)) && ((exists|t: int|
            0 <= t < workspaces[w].tabs@.len() && (#[trigger] workspaces[w].tabs@[t]).id
                == workspaces[w].active_tab) ==> tab_id == workspaces[w].active_tab),
{
    lemma_first_of_dir(workspaces, w, path);
    let ws = workspaces[w];
    workspace::law_tabs_are_found_by_id(ws.tabs@, ws.active_tab, 0);
    let tab = front_tab(ws)->0;
    if workspace::find_tab_in(ws.tabs@, ws.active_tab) is Some {
        let t = choose|t: int| 0 <= t < ws.tabs@.len() && ws.tabs@[t] == tab;
        assert(ws.tabs@[t].id == tab.id);
    } else {
        assert(ws.tabs@[0].id == tab.id);
    }
}

/// The first workspace of a directory.
proof fn lemma_first_of_dir(workspaces: Seq<Workspace>, w: int, path: Seq<char>)
    requires
        0 <= w < workspaces.len(),
        workspaces[w].working_tree_path.deep_view() == Some(path)
            || workspaces[w].repo_root.deep_view() == Some(path),
        forall|j: int|
            0 <= j < w ==> (#[trigger] workspaces[j]).working_tree_path.deep_view() != Some(path)
                && workspaces[j].repo_root.deep_view() != Some(path),
    ensures
        workspace_of_dir(workspaces, path) == Some(workspaces[w]),
    decreases workspaces.len(),
{
    if w > 0 {
        let rest = workspaces.skip(1);
        assert(!shows_dir(workspaces[0], path));
        assert(rest[w - 1] == workspaces[w]);
        assert forall|j: int| 0 <= j < w - 1 implies (
        #[trigger] rest[j]).working_tree_path.deep_view() != Some(path)
            && rest[j].repo_root.deep_view() != Some(path) by {
            assert(rest[j] == workspaces[j + 1]);
        }
        lemma_first_of_dir(rest, w - 1, path);
    }
}

/// A directory that no workspace shows is opened in a new one.
pub proof fn law_other_worktrees_are_new(workspaces: Seq<Workspace>, path: Seq<char>)
    requires
        forall|j: int|
            0 <= j < workspaces.len() ==> (#[trigger] workspaces[j]).working_tree_path.deep_view()
                != Some(path) && workspaces[j].repo_root.deep_view() != Some(path),
    ensures
        existing_place(workspaces, path) is None,
    decreases workspaces.len(),
{
    if workspaces.len() > 0 {
        let rest = workspaces.skip(1);
        assert(!shows_dir(workspaces[0], path));
        assert forall|j: int| 0 <= j < rest.len() implies (
        #[trigger] rest[j]).working_tree_path.deep_view() != Some(path)
            && rest[j].repo_root.deep_view() != Some(path) by {
            assert(rest[j] == workspaces[j + 1]);
        }
        law_other_worktrees_are_new(rest, path);
    }
}

/// The workspace that is made for a worktree shows it and is marked as one.
pub proof fn law_made_worktree_workspaces(
    ws: Workspace,
    id: u32,
    path: Seq<char>,
    work_origin: Seq<char>,
)
    requires
        is_worktree_workspace(ws, id, path, work_origin),
    ensures
        ws.id == id,
        ws.is_worktree,
        ws.working_tree_path.deep_view() == Some(path),
        ws.repo_root.deep_view() == Some(path),
        ws.work_origin@ == work_origin,
        ws.name@ == git::repo_name(path),
        ws.tabs@.len() == 0,
        ws.branch_name is None && ws.host_config_name is None && ws.linked_issue is None,
        !ws.tmux_backed && !ws.collapsed,
{
}

/// The workspace of a removed worktree is the first that has it as its worktree; one that
/// only has it as its repository is not closed.
pub proof fn law_workspaces_of_removed_worktrees(
    workspaces: Seq<Workspace>,
    path: Seq<char>,
    i: int,
)
    ensures
        0 <= i < workspaces.len() && workspaces[i].working_tree_path.deep_view() == Some(path) && (
        forall|j: int|
            0 <= j < i ==> (#[trigger] workspaces[j]).working_tree_path.deep_view() != Some(path))
            ==> workspace_with_worktree(workspaces, path) == Some(workspaces[i].id),
        (forall|j: int|
            0 <= j < workspaces.len() ==> (#[trigger] workspaces[j]).working_tree_path.deep_view()
                != Some(path)) ==> workspace_with_worktree(workspaces, path) is None,
    decreases workspaces.len(),
{
    if workspaces.len() > 0 {
        let rest = workspaces.skip(1);
        law_workspaces_of_removed_worktrees(rest, path, i - 1);
        if 0 < i < workspaces.len() && workspaces[i].working_tree_path.deep_view() == Some(path)
            && (forall|j: int|
            0 <= j < i ==> (#[trigger] workspaces[j]).working_tree_path.deep_view() != Some(path)) {
            assert(workspaces[0].working_tree_path.deep_view() != Some(path));
            assert(rest[i - 1] == workspaces[i]);
            assert forall|j: int| 0 <= j < i - 1 implies (
            #[trigger] rest[j]).working_tree_path.deep_view() != Some(path) by {
                assert(rest[j] == workspaces[j + 1]);
            }
        }
        if forall|j: int|
            0 <= j < workspaces.len() ==> (#[trigger] workspaces[j]).working_tree_path.deep_view()
                != Some(path) {
            assert(workspaces[0].working_tree_path.deep_view() != Some(path));
            assert forall|j: int| 0 <= j < rest.len() implies (
            #[trigger] rest[j]).working_tree_path.deep_view() != Some(path) by {
                assert(rest[j] == workspaces[j + 1]);
            }
        }
    }
}

/// What git reports goes to the workspace that asked, by its id and its identity, and for a
/// worktree only while it still shows the worktree.
pub proof fn law_reports_go_to_the_workspace_that_asked(
    workspaces: Seq<Workspace>,
    id: u32,
    work_origin: Seq<char>,
    path: Option<Seq<char>>,
    i: int,
)
    ensures
        0 <= i < workspaces.len() && workspaces[i].id == id && workspaces[i].work_origin@
            == work_origin && (path is None || workspaces[i].working_tree_path.deep_view() == path)
            && (forall|j: int|
            0 <= j < i ==> (#[trigger] workspaces[j]).id != id) ==> position_of(
            workspaces,
            id,
            work_origin,
            path,
        ) == i,
        (forall|j: int|
            0 <= j < workspaces.len() ==> (#[trigger] workspaces[j]).id != id
                || workspaces[j].work_origin@ != work_origin) ==> position_of(
            workspaces,
            id,
            work_origin,
            path,
        ) == workspaces.len(),
        path is Some && (forall|j: int|
            0 <= j < workspaces.len() ==> (#[trigger] workspaces[j]).working_tree_path.deep_view()
                != path) ==> position_of(workspaces, id, work_origin, path) == workspaces.len(),
    decreases workspaces.len(),
{
    if workspaces.len() > 0 {
        let rest = workspaces.skip(1);
        law_reports_go_to_the_workspace_that_asked(rest, id, work_origin, path, i - 1);
        if 0 < i < workspaces.len() && (forall|j: int|
            0 <= j < i ==> (#[trigger] workspaces[j]).id != id) {
            assert(workspaces[0].id != id);
            assert(rest[i - 1] == workspaces[i]);
            assert forall|j: int| 0 <= j < i - 1 implies (#[trigger] rest[j]).id != id by {
                assert(rest[j] == workspaces[j + 1]);
            }
        }
        if forall|j: int|
            0 <= j < workspaces.len() ==> (#[trigger] workspaces[j]).id != id
                || workspaces[j].work_origin@ != work_origin {
            assert(workspaces[0].id != id || workspaces[0].work_origin@ != work_origin);
            assert forall|j: int| 0 <= j < rest.len() implies (#[trigger] rest[j]).id != id
                || rest[j].work_origin@ != work_origin by {
                assert(rest[j] == workspaces[j + 1]);
            }
        }
        if path is Some && (forall|j: int|
            0 <= j < workspaces.len() ==> (#[trigger] workspaces[j]).working_tree_path.deep_view()
                != path) {
            assert(workspaces[0].working_tree_path.deep_view() != path);
            assert forall|j: int| 0 <= j < rest.len() implies (
            #[trigger] rest[j]).working_tree_path.deep_view() != path by {
                assert(rest[j] == workspaces[j + 1]);
            }
        }
    }
}

/// What is taken over of a report: the repository, the branch, and whether and where it is a
/// linked worktree. The workspace keeps its name, its identity, its tabs and its focus.
pub proof fn law_what_reports_change(
    ws: Workspace,
    before: Workspace,
    info: git::GitInfoView,
    path: Seq<char>,
    repo_root: Option<Seq<char>>,
)
    ensures
        holds_git_info(ws, before, info) ==> {
            &&& ws.repo_root.deep_view() == info.repo_root
            &&& ws.branch_name.deep_view() == info.branch
            &&& ws.is_worktree == info.linked()
            &&& ws.working_tree_path.deep_view() == info.worktree_path()
            &&& ws.id == before.id && ws.name == before.name && ws.work_origin
                == before.work_origin && ws.tabs == before.tabs && ws.active_tab
                == before.active_tab && ws.linked_issue == before.linked_issue
        },
        holds_worktree_info(ws, before, info, path, repo_root) ==> {
            &&& repo_root is Some ==> ws.repo_root.deep_view() == repo_root
            &&& repo_root is None ==> ws.repo_root.deep_view() == info.repo_root
            &&& ws.branch_name.deep_view() == info.branch
            &&& ws.is_worktree
            &&& ws.working_tree_path.deep_view() == Some(path)
            &&& ws.id == before.id && ws.name == before.name && ws.work_origin
                == before.work_origin && ws.tabs == before.tabs && ws.active_tab
                == before.active_tab && ws.linked_issue == before.linked_issue
        },
{
}

/// The heading of a workspace is its name, and the state of its checkout where that is known;
/// a new workspace is named after its checkout.
pub proof fn law_headings_and_names(
    name: Seq<char>,
    info: git::GitInfoView,
    branch: Seq<char>,
    root: Seq<char>,
)
    ensures
        info.branch is None ==> heading(name, info) == name,
        info.branch == Some(branch) && branch.len() > 0 ==> heading(name, info) == name + "  "@
            + info.status(),
        info.checkout_root == Some(root) ==> discovered_name(name, info) == git::repo_name(root),
        info.checkout_root is None && info.repo_root == Some(root) ==> discovered_name(name, info)
            == git::repo_name(root),
        info.checkout_root is None && info.repo_root is None ==> discovered_name(name, info) == name,
{
}

/// Command loops run in the workspace of their name, in its tab with the focus; four panes
/// stand in one tab at most.
pub proof fn law_where_command_loops_run(workspaces: Seq<Workspace>, i: int)
    ensures
        0 <= i < workspaces.len() && workspaces[i].name@ == "Loops"@ && (forall|j: int|
            0 <= j < i ==> (#[trigger] workspaces[j]).name@ != "Loops"@) ==> workspace_named(
            workspaces,
            "Loops"@,
        ) == Some(workspaces[i]) && active_loop_tab(workspaces) == workspace::find_tab_in(
            workspaces[i].tabs@,
            workspaces[i].active_tab,
        ),
        (forall|j: int| 0 <= j < workspaces.len() ==> (#[trigger] workspaces[j]).name@ != "Loops"@)
            ==> workspace_named(workspaces, "Loops"@) is None && active_loop_tab(workspaces) is None,
        LOOPS_WORKSPACE_NAME@ == "Loops"@,
        MAX_LOOP_PANES_PER_TAB == 4,
    decreases workspaces.len(),
{
    if workspaces.len() > 0 {
        let rest = workspaces.skip(1);
        law_where_command_loops_run(rest, i - 1);
        if 0 < i < workspaces.len() && workspaces[i].name@ == "Loops"@ && (forall|j: int|
            0 <= j < i ==> (#[trigger] workspaces[j]).name@ != "Loops"@) {
            assert(workspaces[0].name@ != "Loops"@);
            assert(rest[i - 1] == workspaces[i]);
            assert forall|j: int| 0 <= j < i - 1 implies (#[trigger] rest[j]).name@ != "Loops"@ by {
                assert(rest[j] == workspaces[j + 1]);
            }
        }
        if forall|j: int| 0 <= j < workspaces.len() ==> (#[trigger] workspaces[j]).name@ != "Loops"@ {
            assert(workspaces[0].name@ != "Loops"@);
            assert forall|j: int| 0 <= j < rest.len() implies (#[trigger] rest[j]).name@
                != "Loops"@ by {
                assert(rest[j] == workspaces[j + 1]);
            }
        }
    }
}

/// A request is known by its reason and its workspace, and one about a worktree by the path
/// too.
pub proof fn law_what_requests_are_known_by(id: u32, path: Seq<char>)
    ensures
        discovery_request(DiscoveryReason::NewWorkspace, id, path) == "discover:new-workspace:"@
            + text::decimal(id as nat),
        discovery_request(DiscoveryReason::RestoredWorkspace, id, path)
            == "discover:restore-workspace:"@ + text::decimal(id as nat),
        discovery_request(DiscoveryReason::TemplateWorkspace, id, path)
            == "discover:template-workspace:"@ + text::decimal(id as nat),
        discovery_request(DiscoveryReason::WorktreeWorkspace, id, path)
            == "discover:worktree-workspace:"@ + text::decimal(id as nat) + ":"@ + path,
{
}

} // verus!
