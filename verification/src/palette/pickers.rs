//! The lists behind the commands: saved views, sessions, worktrees and key bindings.

use vstd::prelude::*;
use vstd::string::*;
use crate::palette::attach;
use crate::palette::attach::{attach_candidate_label, AttachCandidate, AttachCandidateKind, CandidateView};
use crate::palette::entry;
use crate::palette::entry::{
    list_with_way_back, push_entry, push_plain, ActionView, EntryView, PaletteAction, PaletteEntry,
};
use crate::palette::records::{SavedView, SavedViewView};
use crate::palette::worktrees;
use crate::palette::worktrees::{worktree_entry_label, WorktreeListingState};
use crate::palette::PaletteMode;
use crate::git::{WorktreeInfo, WorktreeView};
use crate::paths::same_path;
use crate::text;

verus! {

/// The entry of a saved view in a list, if it has one there.
pub open spec fn saved_view_entry(mode: PaletteMode, view: SavedViewView) -> Option<EntryView> {
    let shown = ": "@ + view.name + " ("@ + view.preset_label + ")"@;
    match mode {
        PaletteMode::SavedViewList => Some(
            entry::plain("Open Saved View"@ + shown, ActionView::OpenSavedView(view.name)),
        ),
        PaletteMode::SavedViewDeleteList => Some(
            entry::plain("Delete Saved View"@ + shown, ActionView::DeleteSavedView(view.name)),
        ),
        _ => None,
    }
}

/// The entries of the saved views in a list.
pub open spec fn saved_view_rows(mode: PaletteMode, views: Seq<SavedViewView>) -> Seq<EntryView>
    decreases views.len(),
{
    if views.len() == 0 {
        Seq::empty()
    } else {
        let before = saved_view_rows(mode, views.drop_last());
        match saved_view_entry(mode, views.last()) {
            Some(entry) => before.push(entry),
            None => before,
        }
    }
}

/// The entries of a list of saved views.
pub open spec fn saved_view_entries(
    mode: PaletteMode,
    views: Option<Result<Vec<SavedView>, String>>,
) -> Seq<EntryView> {
    seq![entry::back_entry()] + match views {
        Some(Ok(views)) => saved_view_rows(mode, views.deep_view()),
        Some(Err(error)) => seq![
            entry::plain(
                "⚠ Saved views unavailable: "@ + error@,
                ActionView::ShowError("Could not load saved views: "@ + error@),
            ),
        ],
        None => seq![entry::plain("Loading saved views…"@, ActionView::Noop)],
    }
}

/// The entries of a list of saved views: the way back, and one for each view; or that the
/// views are being read, or why they could not be.
pub fn build_saved_view_entries(
    mode: PaletteMode,
    views: &Option<Result<Vec<SavedView>, String>>,
) -> (r: Vec<PaletteEntry>)
    ensures
        r.deep_view() == saved_view_entries(mode, *views),
{
    let mut entries = list_with_way_back();
    let ghost head = entries.deep_view();
    match views {
        Some(Ok(views)) => {
            let ghost all = views.deep_view();
            let mut i: usize = 0;
            assert(entries.deep_view() =~= head + saved_view_rows(mode, all.take(0)));
            while i < views.len()
                invariant
                    all == views.deep_view(),
                    i <= all.len(),
                    entries.deep_view() == head + saved_view_rows(mode, all.take(i as int)),
                decreases all.len() - i,
            {
                assert(all.take(i + 1).drop_last() =~= all.take(i as int));
                let view = &views[i];
                assert(all[i as int] == view.deep_view());
                let mut shown = ": ".to_owned();
                shown.append(view.name.as_str());
                shown.append(" (");
                shown.append(view.preset_label.as_str());
                shown.append(")");
                match mode {
                    PaletteMode::SavedViewList => {
                        let mut label = "Open Saved View".to_owned();
                        label.append(shown.as_str());
                        push_entry(
                            &mut entries,
                            label,
                            None,
                            PaletteAction::OpenSavedView(view.name.clone()),
                        );
                    },
                    PaletteMode::SavedViewDeleteList => {
                        let mut label = "Delete Saved View".to_owned();
                        label.append(shown.as_str());
                        push_entry(
                            &mut entries,
                            label,
                            None,
                            PaletteAction::DeleteSavedView(view.name.clone()),
                        );
                    },
                    _ => {},
                }
                assert(entries.deep_view() =~= head + saved_view_rows(mode, all.take(i + 1)));
                i += 1;
            }
            assert(all.take(i as int) =~= all);
        },
        Some(Err(error)) => {
            let mut label = "⚠ Saved views unavailable: ".to_owned();
            label.append(error.as_str());
            let mut message = "Could not load saved views: ".to_owned();
            message.append(error.as_str());
            push_entry(&mut entries, label, None, PaletteAction::ShowError(message));
        },
        None => {
            push_plain(&mut entries, "Loading saved views…", PaletteAction::Noop);
        },
    }
    assert(entries.deep_view() =~= saved_view_entries(mode, *views));
    entries
}

/// Whether tmux can be used, and if not, what the user is told.
#[derive(Clone, Debug, PartialEq, Eq)]
pub struct TmuxUiState {
    pub available: bool,
    pub unavailable_message: Option<String>,
}

/// What is listed where there are no sessions.
pub open spec fn no_sessions_message(tmux: TmuxUiState) -> Seq<char> {
    if tmux.available {
        "No tmux sessions found. Create one with a tmux tab, or configure [hosts] in config.toml for remote discovery."@
    } else {
        match tmux.unavailable_message {
            Some(message) => message@,
            None => "tmux is not available. Install tmux to create and attach sessions."@,
        }
    }
}

/// The entry of a session.
pub open spec fn candidate_entry(row: CandidateView) -> EntryView {
    entry::plain(
        attach::candidate_label(row),
        match row.kind {
            AttachCandidateKind::AttachedHere { tab_id } => ActionView::FocusTab(tab_id),
            AttachCandidateKind::Attach => ActionView::AttachSessionTarget {
                session_name: row.session_name,
                target: row.target,
            },
        },
    )
}

/// The entries of the list of sessions.
pub open spec fn attach_entries(rows: Seq<CandidateView>, tmux: TmuxUiState) -> Seq<EntryView> {
    seq![entry::back_entry()] + if rows.len() == 0 {
        seq![entry::plain(no_sessions_message(tmux), ActionView::Noop)]
    } else {
        rows.map_values(|row: CandidateView| candidate_entry(row))
    }
}

/// The entries of the list of sessions: the way back, and one for each session, which
/// leads to the tab that shows the session or attaches it; or why there are none.
pub fn build_attach_session_entries(candidates: Vec<AttachCandidate>, tmux: &TmuxUiState) -> (r: Vec<
    PaletteEntry,
>)
    ensures
        r.deep_view() == attach_entries(candidates.deep_view(), *tmux),
{
    let mut entries = list_with_way_back();
    let ghost head = entries.deep_view();
    let ghost all = candidates.deep_view();
    let ghost rows = all.map_values(|row: CandidateView| candidate_entry(row));
    if candidates.len() == 0 {
        let message = if tmux.available {
            "No tmux sessions found. Create one with a tmux tab, or configure [hosts] in config.toml for remote discovery.".to_owned()
        } else {
            match &tmux.unavailable_message {
                Some(message) => message.clone(),
                None => "tmux is not available. Install tmux to create and attach sessions.".to_owned(),
            }
        };
        push_entry(&mut entries, message, None, PaletteAction::Noop);
        assert(entries.deep_view() =~= attach_entries(all, *tmux));
        return entries;
    }
    let mut i: usize = 0;
    assert(entries.deep_view() =~= head + rows.take(0));
    while i < candidates.len()
        invariant
            all == candidates.deep_view(),
            rows == all.map_values(|row: CandidateView| candidate_entry(row)),
            i <= candidates.len(),
            entries.deep_view() == head + rows.take(i as int),
        decreases candidates.len() - i,
    {
        let candidate = &candidates[i];
        assert(all[i as int] == candidate.deep_view());
        let label = attach_candidate_label(candidate);
        let action = match candidate.kind {
            AttachCandidateKind::AttachedHere { tab_id } => PaletteAction::FocusTab(tab_id),
            AttachCandidateKind::Attach => PaletteAction::AttachSessionTarget {
                session_name: candidate.session_name.clone(),
                target: candidate.target.copy_target(),
            },
        };
        push_entry(&mut entries, label, None, action);
        assert(entries.deep_view() =~= head + rows.take(i + 1));
        i += 1;
    }
    assert(rows.take(i as int) =~= rows);
    entries
}

/// The entries of the worktrees of a repository. The first worktree is the repository's
/// own checkout, which is not removed.
pub open spec fn worktree_rows(
    mode: PaletteMode,
    worktrees: Seq<WorktreeView>,
    repo_root: Seq<char>,
) -> Seq<EntryView> {
    match mode {
        PaletteMode::WorktreeList => worktrees.map_values(
            |info: WorktreeView|
                entry::plain(
                    "Open Worktree: "@ + worktrees::worktree_label(info),
                    ActionView::OpenWorktree(info.path),
                ),
        ),
        PaletteMode::WorktreeRemove => if worktrees.len() == 0 {
            Seq::empty()
        } else {
            worktrees.skip(1).map_values(
                |info: WorktreeView|
                    entry::plain(
                        "Remove Worktree: "@ + worktrees::worktree_label(info),
                        ActionView::DeleteWorktree(info.path, repo_root),
                    ),
            )
        },
        _ => Seq::empty(),
    }
}

/// The entries of a list of worktrees.
pub open spec fn worktree_entries(
    mode: PaletteMode,
    repo_root: Option<Seq<char>>,
    state: worktrees::ListingView,
) -> Seq<EntryView> {
    seq![entry::back_entry()] + match repo_root {
        None => Seq::empty(),
        Some(root) => match (state.listing_of(root), state.error_of(root)) {
            (Some(list), _) => worktree_rows(mode, list, root),
            (None, Some(error)) => seq![
                entry::plain("Could not refresh worktrees: "@ + error, ActionView::Noop),
            ],
            (None, None) => seq![entry::plain("Loading worktrees…"@, ActionView::Noop)],
        },
    }
}

/// Appends the entries of the worktrees.
fn push_worktrees(
    entries: &mut Vec<PaletteEntry>,
    mode: PaletteMode,
    worktrees: &Vec<WorktreeInfo>,
    repo_root: &str,
)
    ensures
        final(entries).deep_view() == old(entries).deep_view() + worktree_rows(
            mode,
            worktrees.deep_view(),
            repo_root@,
        ),
{
    let ghost head = entries.deep_view();
    let ghost all = worktrees.deep_view();
    let ghost rows = worktree_rows(mode, all, repo_root@);
    match mode {
        PaletteMode::WorktreeList => {
            let mut i: usize = 0;
            assert(entries.deep_view() =~= head + rows.take(0));
            while i < worktrees.len()
                invariant
                    mode == PaletteMode::WorktreeList,
                    all == worktrees.deep_view(),
                    rows == worktree_rows(mode, all, repo_root@),
                    i <= worktrees.len(),
                    entries.deep_view() == head + rows.take(i as int),
                decreases worktrees.len() - i,
            {
                let info = &worktrees[i];
                assert(all[i as int] == info.deep_view());
                let shown = worktree_entry_label(info);
                let mut label = "Open Worktree: ".to_owned();
                label.append(shown.as_str());
                push_entry(entries, label, None, PaletteAction::OpenWorktree(info.path.clone()));
                assert(entries.deep_view() =~= head + rows.take(i + 1));
                i += 1;
            }
            assert(rows.take(i as int) =~= rows);
        },
        PaletteMode::WorktreeRemove => {
            let mut i: usize = 1;
            assert(entries.deep_view() =~= head + rows.take(0));
            while i < worktrees.len()
                invariant
                    mode == PaletteMode::WorktreeRemove,
                    all == worktrees.deep_view(),
                    rows == worktree_rows(mode, all, repo_root@),
                    1 <= i,
                    i <= worktrees.len() || (worktrees.len() == 0 && i == 1),
                    entries.deep_view() == head + rows.take(i - 1),
                decreases worktrees.len() - i,
            {
                let info = &worktrees[i];
                assert(all[i as int] == info.deep_view());
                assert(all.skip(1)[i - 1] == info.deep_view());
                let shown = worktree_entry_label(info);
                let mut label = "Remove Worktree: ".to_owned();
                label.append(shown.as_str());
                push_entry(
                    entries,
                    label,
                    None,
                    PaletteAction::DeleteWorktree(info.path.clone(), repo_root.to_owned()),
                );
                assert(entries.deep_view() =~= head + rows.take(i as int));
                i += 1;
            }
            assert(rows.take(i - 1) =~= rows);
        },
        _ => {},
    }
    assert(entries.deep_view() =~= head + rows);
}

/// The entries of a list of worktrees: the way back, and the worktrees of the active
/// workspace's repository; or that they are being listed, or why they could not be.
pub fn build_worktree_entries(
    mode: PaletteMode,
    repo_root: &Option<String>,
    state: &WorktreeListingState,
) -> (r: Vec<PaletteEntry>)
    ensures
        r.deep_view() == worktree_entries(mode, repo_root.deep_view(), state.deep_view()),
{
    let mut entries = list_with_way_back();
    let root = match repo_root {
        Some(root) => root,
        None => {
            assert(entries.deep_view() =~= worktree_entries(mode, None, state.deep_view()));
            return entries;
        },
    };
    if let Some((cached_root, worktrees)) = &state.listing {
        if same_path(cached_root.as_str(), root.as_str()) {
            push_worktrees(&mut entries, mode, worktrees, root.as_str());
            return entries;
        }
    }
    if let Some((cached_root, error)) = &state.listing_error {
        if same_path(cached_root.as_str(), root.as_str()) {
            let mut label = "Could not refresh worktrees: ".to_owned();
            label.append(error.as_str());
            push_entry(&mut entries, label, None, PaletteAction::Noop);
            assert(entries.deep_view() =~= worktree_entries(
                mode,
                repo_root.deep_view(),
                state.deep_view(),
            ));
            return entries;
        }
    }
    push_plain(&mut entries, "Loading worktrees…", PaletteAction::Noop);
    assert(entries.deep_view() =~= worktree_entries(
        mode,
        repo_root.deep_view(),
        state.deep_view(),
    ));
    entries
}

/// The lists of saved views have every view, in their order; choosing one opens or deletes it.
pub proof fn law_lists_of_saved_views(
    views: Seq<SavedViewView>,
    view: SavedViewView,
    mode: PaletteMode,
    error: String,
)
    ensures
        saved_view_rows(mode, Seq::empty()) == Seq::<EntryView>::empty(),
        saved_view_rows(PaletteMode::SavedViewList, views.push(view)) == saved_view_rows(
            PaletteMode::SavedViewList,
            views,
        ).push(
            EntryView {
                label: "Open Saved View"@ + (": "@ + view.name + " ("@ + view.preset_label + ")"@),
                shortcut: None,
                action: ActionView::OpenSavedView(view.name),
            },
        ),
        saved_view_rows(PaletteMode::SavedViewDeleteList, views.push(view)) == saved_view_rows(
            PaletteMode::SavedViewDeleteList,
            views,
        ).push(
            EntryView {
                label: "Delete Saved View"@ + (": "@ + view.name + " ("@ + view.preset_label
                    + ")"@),
                shortcut: None,
                action: ActionView::DeleteSavedView(view.name),
            },
        ),
        saved_view_entries(mode, None)[0] == entry::back_entry(),
        saved_view_entries(mode, None)[1].label == "Loading saved views…"@,
        saved_view_entries(mode, Some(Err(error)))[1].label == "⚠ Saved views unavailable: "@
            + error@,
        saved_view_entries(mode, Some(Err(error)))[1].action == ActionView::ShowError(
            "Could not load saved views: "@ + error@,
        ),
{
    assert(views.push(view).drop_last() =~= views);
}

/// A session that a tab shows leads to the tab; others are attached by name, on their server.
/// Without sessions the list says why.
pub proof fn law_lists_of_sessions(rows: Seq<CandidateView>, tmux: TmuxUiState, i: int)
    ensures
        attach_entries(rows, tmux)[0] == entry::back_entry(),
        0 <= i < rows.len() ==> {
            let shown = attach_entries(rows, tmux)[i + 1];
            &&& attach_entries(rows, tmux).len() == rows.len() + 1
            &&& shown.label == attach::candidate_label(rows[i])
            &&& rows[i].kind matches AttachCandidateKind::AttachedHere { tab_id } ==> shown.action
                == ActionView::FocusTab(rows[i].kind->tab_id)
            &&& rows[i].kind is Attach ==> shown.action == (ActionView::AttachSessionTarget {
                session_name: rows[i].session_name,
                target: rows[i].target,
            })
        },
        rows.len() == 0 ==> attach_entries(rows, tmux).len() == 2 && attach_entries(
            rows,
            tmux,
        )[1].action is Noop && attach_entries(rows, tmux)[1].label == no_sessions_message(tmux),
        tmux.available ==> no_sessions_message(tmux)
            == "No tmux sessions found. Create one with a tmux tab, or configure [hosts] in config.toml for remote discovery."@,
        !tmux.available && (tmux.unavailable_message matches Some(message)) ==> no_sessions_message(
            tmux,
        ) == tmux.unavailable_message->0@,
        !tmux.available && tmux.unavailable_message is None ==> no_sessions_message(tmux)
            == "tmux is not available. Install tmux to create and attach sessions."@,
{
}

/// All worktrees can be opened, and all but the first, which is the repository's own, can be
/// removed.
pub proof fn law_lists_of_worktrees(worktrees: Seq<WorktreeView>, root: Seq<char>, i: int)
    ensures
        worktree_rows(PaletteMode::WorktreeList, worktrees, root).len() == worktrees.len(),
        0 <= i < worktrees.len() ==> worktree_rows(PaletteMode::WorktreeList, worktrees, root)[i]
            == (EntryView {
            label: "Open Worktree: "@ + worktrees::worktree_label(worktrees[i]),
            shortcut: None,
            action: ActionView::OpenWorktree(worktrees[i].path),
        }),
        worktrees.len() > 0 ==> worktree_rows(PaletteMode::WorktreeRemove, worktrees, root).len()
            == worktrees.len() - 1,
        1 <= i < worktrees.len() ==> worktree_rows(
            PaletteMode::WorktreeRemove,
            worktrees,
            root,
        )[i - 1] == (EntryView {
            label: "Remove Worktree: "@ + worktrees::worktree_label(worktrees[i]),
            shortcut: None,
            action: ActionView::DeleteWorktree(worktrees[i].path, root),
        }),
        worktree_rows(PaletteMode::WorktreeRemove, Seq::empty(), root) == Seq::<EntryView>::empty(),
{
}

/// The list of worktrees shows what is known of the repository of the workspace: its
/// worktrees, why they are not known, or that they are being read.
pub proof fn law_what_is_known_of_worktrees(
    mode: PaletteMode,
    root: Seq<char>,
    list: Seq<WorktreeView>,
    error: Seq<char>,
    state: worktrees::ListingView,
)
    ensures
        worktree_entries(mode, None, state) == seq![entry::back_entry()],
        state.listing == Some((root, list)) ==> worktree_entries(mode, Some(root), state) == seq![
            entry::back_entry(),
        ] + worktree_rows(mode, list, root),
        state.listing is None && state.listing_error == Some((root, error)) ==> worktree_entries(
            mode,
            Some(root),
            state,
        ) == seq![
            entry::back_entry(),
            EntryView {
                label: "Could not refresh worktrees: "@ + error,
                shortcut: None,
                action: ActionView::Noop,
            },
        ],
        state.listing is None && state.listing_error is None ==> worktree_entries(
            mode,
            Some(root),
            state,
        ) == seq![
            entry::back_entry(),
            EntryView { label: "Loading worktrees…"@, shortcut: None, action: ActionView::Noop },
        ],
{
    assert(worktree_entries(mode, None, state) =~= seq![entry::back_entry()]);
    if state.listing is None && state.listing_error == Some((root, error)) {
        assert(worktree_entries(mode, Some(root), state) =~= seq![
            entry::back_entry(),
            entry::plain("Could not refresh worktrees: "@ + error, ActionView::Noop),
        ]);
    }
    if state.listing is None && state.listing_error is None {
        assert(worktree_entries(mode, Some(root), state) =~= seq![
            entry::back_entry(),
            entry::plain("Loading worktrees…"@, ActionView::Noop),
        ]);
    }
}

} // verus!
