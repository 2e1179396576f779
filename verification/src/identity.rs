//! The ids of workspaces and tabs, which tell them apart whatever is done to the state.

use vstd::prelude::*;
use crate::navigation;
use crate::workspace;
use crate::workspace::{AppState, Tab, Workspace};

verus! {

/// The ids of tabs.
pub open spec fn ids_in(tabs: Seq<Tab>) -> Seq<u32> {
    tabs.map_values(|tab: Tab| tab.id)
}

/// The ids of the tabs of all workspaces.
pub open spec fn tab_ids(workspaces: Seq<Workspace>) -> Seq<u32>
    decreases workspaces.len(),
{
    if workspaces.len() == 0 {
        Seq::empty()
    } else {
        tab_ids(workspaces.drop_last()) + ids_in(workspaces.last().tabs@)
    }
}

impl AppState {
    /// Whether the ids tell the workspaces and the tabs apart, and none of them is given
    /// out again.
    pub open spec fn sound(self) -> bool {
        &&& forall|i: int|
            0 <= i < self.workspaces@.len() ==> (#[trigger] self.workspaces@[i]).id < self.next_id
        &&& forall|i: int, j: int|
            0 <= i < j < self.workspaces@.len() ==> (#[trigger] self.workspaces@[i]).id != (
            #[trigger] self.workspaces@[j]).id
        &&& forall|k: int|
            0 <= k < tab_ids(self.workspaces@).len() ==> #[trigger] tab_ids(self.workspaces@)[k]
                < self.next_id
        &&& tab_ids(self.workspaces@).no_duplicates()
    }
}

/// Whether the workspaces and tabs of two lists have the same ids.
pub open spec fn same_ids(a: Seq<Workspace>, b: Seq<Workspace>) -> bool {
    &&& a.len() == b.len()
    &&& forall|i: int|
        0 <= i < a.len() ==> (#[trigger] a[i]).id == b[i].id && ids_in(a[i].tabs@) == ids_in(
            b[i].tabs@,
        )
}

/// The ids of the tabs depend on those of each workspace alone.
pub proof fn lemma_same_tab_ids(a: Seq<Workspace>, b: Seq<Workspace>)
    requires
        same_ids(a, b),
    ensures
        tab_ids(a) == tab_ids(b),
    decreases a.len(),
{
    if a.len() > 0 {
        assert(a[a.len() - 1].id == b[a.len() - 1].id);
        assert forall|i: int| 0 <= i < a.drop_last().len() implies (#[trigger] a.drop_last()[i]).id
            == b.drop_last()[i].id && ids_in(a.drop_last()[i].tabs@) == ids_in(
            b.drop_last()[i].tabs@,
        ) by {
            assert(a[i].id == b[i].id);
        }
        lemma_same_tab_ids(a.drop_last(), b.drop_last());
    }
}

/// A change that leaves the ids as they are keeps them apart.
pub proof fn lemma_same_ids_stay_sound(before: AppState, after: AppState)
    requires
        before.sound(),
        same_ids(before.workspaces@, after.workspaces@),
        before.next_id <= after.next_id,
    ensures
        after.sound(),
{
    lemma_same_tab_ids(before.workspaces@, after.workspaces@);
    let (a, b) = (before.workspaces@, after.workspaces@);
    assert forall|i: int| 0 <= i < b.len() implies (#[trigger] b[i]).id < after.next_id by {
        assert(a[i].id == b[i].id);
    }
    assert forall|i: int, j: int| 0 <= i < j < b.len() implies (#[trigger] b[i]).id != (
    #[trigger] b[j]).id by {
        assert(a[i].id == b[i].id && a[j].id == b[j].id);
    }
}

/// A new workspace without tabs keeps the ids apart.
pub proof fn lemma_new_workspace_stays_sound(before: AppState, after: AppState)
    requires
        before.sound(),
        before.next_id < u32::MAX,
        after.next_id == before.next_id + 1,
        after.workspaces@.len() == before.workspaces@.len() + 1,
        after.workspaces@.drop_last() == before.workspaces@,
        after.workspaces@.last().id == before.next_id,
        after.workspaces@.last().tabs@.len() == 0,
    ensures
        after.sound(),
{
    let (a, b) = (before.workspaces@, after.workspaces@);
    assert(tab_ids(b) =~= tab_ids(a));
    assert forall|i: int| 0 <= i < b.len() implies (#[trigger] b[i]).id < after.next_id by {
        if i < a.len() {
            assert(b.drop_last()[i] == a[i]);
        }
    }
    assert forall|i: int, j: int| 0 <= i < j < b.len() implies (#[trigger] b[i]).id != (
    #[trigger] b[j]).id by {
        assert(b.drop_last()[i] == a[i]);
        if j < a.len() {
            assert(b.drop_last()[j] == a[j]);
        }
    }
}

/// How often an id stands among the tabs of all workspaces after one of them was replaced.
proof fn lemma_count_after_update(all: Seq<Workspace>, i: int, ws: Workspace, id: u32)
    requires
        0 <= i < all.len(),
    ensures
        tab_ids(all.update(i, ws)).to_multiset().count(id) + ids_in(
            all[i].tabs@,
        ).to_multiset().count(id) == tab_ids(all).to_multiset().count(id) + ids_in(
            ws.tabs@,
        ).to_multiset().count(id),
    decreases all.len(),
{
    let new = all.update(i, ws);
    vstd::seq_lib::lemma_multiset_commutative(tab_ids(all.drop_last()), ids_in(all.last().tabs@));
    vstd::seq_lib::lemma_multiset_commutative(tab_ids(new.drop_last()), ids_in(new.last().tabs@));
    if i == all.len() - 1 {
        assert(new.drop_last() =~= all.drop_last());
    } else {
        assert(new.drop_last() =~= all.drop_last().update(i, ws));
        lemma_count_after_update(all.drop_last(), i, ws, id);
    }
}

/// A list holds each id as often as another that has the same multiset, so it has no
/// duplicates where the other has none.
proof fn lemma_no_duplicates_by_count(a: Seq<u32>, b: Seq<u32>)
    requires
        a.no_duplicates(),
        a.to_multiset() == b.to_multiset(),
    ensures
        b.no_duplicates(),
{
    a.lemma_multiset_has_no_duplicates();
    b.lemma_multiset_has_no_duplicates_conv();
}

/// A new tab in one workspace keeps the ids apart.
pub proof fn lemma_new_tab_stays_sound(before: AppState, after: AppState, w: int, id: u32)
    requires
        before.sound(),
        0 <= w < before.workspaces@.len(),
        before.next_id <= id < after.next_id,
        after.workspaces@.len() == before.workspaces@.len(),
        after.workspaces@ == before.workspaces@.update(w, after.workspaces@[w]),
        after.workspaces@[w].id == before.workspaces@[w].id,
        ids_in(after.workspaces@[w].tabs@) == ids_in(before.workspaces@[w].tabs@).push(id),
    ensures
        after.sound(),
{
    broadcast use vstd::seq_lib::group_to_multiset_ensures;

    let (a, b) = (before.workspaces@, after.workspaces@);
    let (old_ids, new_ids) = (tab_ids(a), tab_ids(b));
    let all = old_ids.push(id);
    assert forall|x: u32| #[trigger] new_ids.to_multiset().count(x) == all.to_multiset().count(
        x,
    ) by {
        lemma_count_after_update(a, w, b[w], x);
    }
    assert(new_ids.to_multiset() =~= all.to_multiset());
    assert(all.no_duplicates());
    lemma_no_duplicates_by_count(all, new_ids);
    assert forall|k: int| 0 <= k < new_ids.len() implies #[trigger] new_ids[k]
        < after.next_id by {
        assert(new_ids.contains(new_ids[k]));
        assert(new_ids.to_multiset().count(new_ids[k]) > 0);
        assert(all.contains(new_ids[k]));
        let at = choose|at: int| 0 <= at < all.len() && all[at] == new_ids[k];
        if at < old_ids.len() {
            assert(old_ids[at] == new_ids[k]);
        }
    }
    assert forall|i: int| 0 <= i < b.len() implies (#[trigger] b[i]).id < after.next_id by {
        assert(a[i].id == b[i].id);
    }
    assert forall|i: int, j: int| 0 <= i < j < b.len() implies (#[trigger] b[i]).id != (
    #[trigger] b[j]).id by {
        assert(a[i].id == b[i].id && a[j].id == b[j].id);
    }
}

/// A tab that goes from one workspace to another keeps the ids apart.
pub proof fn lemma_moved_tab_stays_sound(before: AppState, after: AppState, s: int, t: int, at: int)
    requires
        before.sound(),
        0 <= s < before.workspaces@.len(),
        0 <= t < before.workspaces@.len(),
        s != t,
        0 <= at < before.workspaces@[s].tabs@.len(),
        after.next_id == before.next_id,
        after.workspaces@ == before.workspaces@.update(s, after.workspaces@[s]).update(
            t,
            after.workspaces@[t],
        ),
        after.workspaces@[s].id == before.workspaces@[s].id,
        after.workspaces@[t].id == before.workspaces@[t].id,
        after.workspaces@[s].tabs@ == before.workspaces@[s].tabs@.remove(at),
        after.workspaces@[t].tabs@ == before.workspaces@[t].tabs@.push(
            before.workspaces@[s].tabs@[at],
        ),
    ensures
        after.sound(),
{
    broadcast use vstd::seq_lib::group_to_multiset_ensures;

    let (a, b) = (before.workspaces@, after.workspaces@);
    let id = a[s].tabs@[at].id;
    let middle = a.update(s, b[s]);
    let (old_ids, new_ids) = (tab_ids(a), tab_ids(b));
    assert(ids_in(b[s].tabs@) =~= ids_in(a[s].tabs@).remove(at));
    assert(ids_in(b[t].tabs@) =~= ids_in(a[t].tabs@).push(id));
    assert(ids_in(a[s].tabs@)[at] == id);
    assert forall|x: u32| #[trigger] new_ids.to_multiset().count(x)
        == old_ids.to_multiset().count(x) by {
        lemma_count_after_update(a, s, b[s], x);
        lemma_count_after_update(middle, t, b[t], x);
        assert(b == middle.update(t, b[t]));
        assert(ids_in(a[s].tabs@).to_multiset().count(id) > 0);
    }
    assert(new_ids.to_multiset() =~= old_ids.to_multiset());
    lemma_no_duplicates_by_count(old_ids, new_ids);
    assert forall|k: int| 0 <= k < new_ids.len() implies #[trigger] new_ids[k]
        < after.next_id by {
        assert(new_ids.contains(new_ids[k]));
        assert(new_ids.to_multiset().count(new_ids[k]) > 0);
        assert(old_ids.contains(new_ids[k]));
    }
    assert forall|i: int| 0 <= i < b.len() implies (#[trigger] b[i]).id < after.next_id by {
        assert(a[i].id == b[i].id);
    }
    assert forall|i: int, j: int| 0 <= i < j < b.len() implies (#[trigger] b[i]).id != (
    #[trigger] b[j]).id by {
        assert(a[i].id == b[i].id && a[j].id == b[j].id);
    }
}

/// How many tabs stand before a workspace.
spec fn offset(workspaces: Seq<Workspace>, w: int) -> int {
    tab_ids(workspaces.take(w)).len() as int
}

/// Where the tabs of a workspace stand among all.
proof fn lemma_place_of_tab(workspaces: Seq<Workspace>, w: int, t: int)
    requires
        0 <= w < workspaces.len(),
        0 <= t < workspaces[w].tabs@.len(),
    ensures
        0 <= offset(workspaces, w) + t < tab_ids(workspaces).len(),
        tab_ids(workspaces)[offset(workspaces, w) + t] == workspaces[w].tabs@[t].id,
    decreases workspaces.len(),
{
    let shorter = workspaces.drop_last();
    if w == workspaces.len() - 1 {
        assert(workspaces.take(w) =~= shorter);
        let own = ids_in(workspaces.last().tabs@);
        assert((tab_ids(shorter) + own)[tab_ids(shorter).len() + t] == own[t]);
    } else {
        lemma_place_of_tab(shorter, w, t);
        assert(shorter.take(w) =~= workspaces.take(w));
    }
}

/// The tabs of an earlier workspace stand before those of a later one.
proof fn lemma_offsets_grow(workspaces: Seq<Workspace>, v: int, w: int)
    requires
        0 <= v < w <= workspaces.len(),
    ensures
        offset(workspaces, v) + workspaces[v].tabs@.len() <= offset(workspaces, w),
    decreases w - v,
{
    let front = workspaces.take(w);
    assert(front.drop_last() =~= workspaces.take(w - 1));
    assert(front.last() == workspaces[w - 1]);
    if v < w - 1 {
        lemma_offsets_grow(workspaces, v, w - 1);
    }
}

/// The id of a tab leads to that tab, wherever it is.
pub proof fn law_ids_lead_to_their_tabs(state: AppState, w: int, t: int)
    requires
        state.sound(),
        0 <= w < state.workspaces@.len(),
        0 <= t < state.workspaces@[w].tabs@.len(),
    ensures
        ({
            let id = state.workspaces@[w].tabs@[t].id;
            &&& navigation::holder_index(state.workspaces@, id) == w
            &&& navigation::tab_index(state.workspaces@[w].tabs@, id) == t
        }),
{
    let all = state.workspaces@;
    let id = all[w].tabs@[t].id;
    navigation::lemma_tab_at(all[w].tabs@, id, t);
    navigation::lemma_holder_at(all, id, w);
    let s = navigation::holder_index(all, id) as int;
    let u = navigation::tab_index(all[s].tabs@, id) as int;
    navigation::lemma_first_tab(all[s].tabs@, id);
    navigation::lemma_first_tab(all[w].tabs@, id);
    lemma_place_of_tab(all, w, t);
    lemma_place_of_tab(all, s, u);
    if s < w {
        lemma_offsets_grow(all, s, w);
    }
    let v = navigation::tab_index(all[w].tabs@, id) as int;
    lemma_place_of_tab(all, w, v);
}

/// The id of a workspace leads to that workspace.
pub proof fn law_ids_lead_to_their_workspaces(state: AppState, w: int)
    requires
        state.sound(),
        0 <= w < state.workspaces@.len(),
    ensures
        workspace::workspace_index(state.workspaces@, state.workspaces@[w].id) == w,
        workspace::find_workspace(state.workspaces@, state.workspaces@[w].id) == Some(
            state.workspaces@[w],
        ),
{
    lemma_first_workspace(state.workspaces@, w);
}

/// A workspace whose id no earlier one has is the first with it.
proof fn lemma_first_workspace(workspaces: Seq<Workspace>, w: int)
    requires
        0 <= w < workspaces.len(),
        forall|i: int| 0 <= i < w ==> (#[trigger] workspaces[i]).id != workspaces[w].id,
    ensures
        workspace::workspace_index(workspaces, workspaces[w].id) == w,
        workspace::find_workspace(workspaces, workspaces[w].id) == Some(workspaces[w]),
    decreases workspaces.len(),
{
    if w > 0 {
        assert(workspaces[0].id != workspaces[w].id);
        let rest = workspaces.skip(1);
        assert forall|i: int| 0 <= i < w - 1 implies (#[trigger] rest[i]).id != rest[w - 1].id by {
            assert(workspaces[i + 1].id != workspaces[w].id);
        }
        lemma_first_workspace(rest, w - 1);
    }
}

} // verus!
