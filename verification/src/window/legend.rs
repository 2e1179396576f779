//! The legend that says which panes of a tab were restored.

use vstd::prelude::*;

verus! {

/// After how many seconds the legend goes away by itself.
pub const RESTORE_LEGEND_TIMEOUT_SECONDS: u64 = 10;

/// The legend's state. The tabs that still have a legend to show are `pending`.
pub struct RestoreLegend {
    pub pending: Vec<u32>,
    pub last_active_tab: Option<u32>,
    pub rendered_tab: Option<u32>,
    /// Tells showings apart: the end of an earlier one is ignored.
    pub generation: u64,
    pub visible: bool,
}

/// The mathematical value of a [`RestoreLegend`].
pub struct LegendView {
    pub pending: Seq<u32>,
    pub last_active_tab: Option<u32>,
    pub rendered_tab: Option<u32>,
    pub generation: u64,
    pub visible: bool,
}

impl View for RestoreLegend {
    type V = LegendView;

    open spec fn view(&self) -> LegendView {
        LegendView {
            pending: self.pending@,
            last_active_tab: self.last_active_tab,
            rendered_tab: self.rendered_tab,
            generation: self.generation,
            visible: self.visible,
        }
    }
}

/// The tabs without one of them.
pub open spec fn without(tabs: Seq<u32>, tab_id: u32) -> Seq<u32> {
    tabs.filter(|tab: u32| tab != tab_id)
}

impl LegendView {
    /// The legend while nothing is shown.
    pub open spec fn hidden(self) -> LegendView {
        LegendView {
            generation: if self.generation == u64::MAX {
                0
            } else {
                (self.generation + 1) as u64
            },
            rendered_tab: None,
            visible: false,
            ..self
        }
    }

    /// The legend after that of a tab was dismissed.
    pub open spec fn dismissed(self, tab_id: u32) -> LegendView {
        let forgotten = LegendView { pending: without(self.pending, tab_id), ..self };
        if self.rendered_tab == Some(tab_id) {
            forgotten.hidden()
        } else {
            forgotten
        }
    }

    /// The legend after another tab may have got the focus: that of the tab that lost it
    /// is dismissed.
    pub open spec fn moved(self, active_tab: Option<u32>) -> LegendView {
        LegendView {
            last_active_tab: active_tab,
            pending: match self.last_active_tab {
                Some(tab_id) => if self.last_active_tab != active_tab {
                    without(self.pending, tab_id)
                } else {
                    self.pending
                },
                None => self.pending,
            },
            ..self
        }
    }

    /// Whether the active tab has a legend to show.
    pub open spec fn due(self, active_tab: Option<u32>) -> bool {
        active_tab is Some && self.moved(active_tab).pending.contains(active_tab->0)
    }

    /// The legend after it was brought up to date.
    pub open spec fn refreshed(self, active_tab: Option<u32>) -> LegendView {
        let moved = self.moved(active_tab);
        if !self.due(active_tab) {
            moved.hidden()
        } else if self.rendered_tab == active_tab && self.visible {
            moved
        } else {
            LegendView { rendered_tab: active_tab, visible: true, ..moved.hidden() }
        }
    }
}

impl RestoreLegend {
    /// Marks the beginning of another showing.
    fn bump_generation(&mut self) -> (r: u64)
        ensures
            final(self)@ == (LegendView {
                generation: old(self)@.hidden().generation,
                ..old(self)@
            }),
            r == final(self)@.generation,
    {
        self.generation = self.generation.wrapping_add(1);
        self.generation
    }

    /// Hides the legend.
    pub fn conceal(&mut self)
        ensures
            final(self)@ == old(self)@.hidden(),
    {
        let _ = self.bump_generation();
        self.rendered_tab = None;
        self.visible = false;
    }

    /// Forgets the legend of a tab.
    fn forget(&mut self, tab_id: u32)
        ensures
            final(self)@ == (LegendView {
                pending: without(old(self)@.pending, tab_id),
                ..old(self)@
            }),
    {
        let ghost all = self.pending@;
        let mut kept: Vec<u32> = Vec::new();
        let mut i: usize = 0;
        proof {
            reveal(Seq::filter);
        }
        assert(kept@ =~= without(all.take(0), tab_id));
        while i < self.pending.len()
            invariant
                all == self.pending@,
                self@ == old(self)@,
                i <= all.len(),
                kept@ == without(all.take(i as int), tab_id),
            decreases all.len() - i,
        {
            proof {
                reveal(Seq::filter);
            }
            assert(all.take(i + 1).drop_last() =~= all.take(i as int));
            if self.pending[i] != tab_id {
                kept.push(self.pending[i]);
            }
            i += 1;
        }
        assert(all.take(i as int) =~= all);
        self.pending = kept;
    }

    /// Dismisses the legend of a tab. Says whether it was shown, so that the terminal gets
    /// the keyboard back.
    pub fn dismiss_tab(&mut self, tab_id: u32) -> (r: bool)
        ensures
            r == (old(self)@.rendered_tab == Some(tab_id)),
            final(self)@ == old(self)@.dismissed(tab_id),
    {
        self.forget(tab_id);
        match self.rendered_tab {
            Some(shown) => {
                if shown == tab_id {
                    self.conceal();
                    true
                } else {
                    false
                }
            },
            None => false,
        }
    }

    /// Dismisses the legend that is shown.
    pub fn dismiss_active(&mut self) -> (r: bool)
        ensures
            r == old(self)@.rendered_tab is Some,
            final(self)@ == match old(self)@.rendered_tab {
                Some(tab_id) => old(self)@.dismissed(tab_id),
                None => old(self)@,
            },
    {
        match self.rendered_tab {
            Some(tab_id) => self.dismiss_tab(tab_id),
            None => false,
        }
    }

    /// Whether a tab has a legend to show.
    fn has_pending(&self, tab_id: u32) -> (r: bool)
        ensures
            r == self@.pending.contains(tab_id),
    {
        let mut i: usize = 0;
        while i < self.pending.len()
            invariant
                i <= self.pending.len(),
                forall|k: int| 0 <= k < i ==> self.pending@[k] != tab_id,
            decreases self.pending.len() - i,
        {
            if self.pending[i] == tab_id {
                return true;
            }
            i += 1;
        }
        false
    }

    /// Brings the legend up to date with the active tab. Where it is shown anew, gives the
    /// tab and the generation that the end of the showing has to name.
    pub fn refresh(&mut self, active_tab: Option<u32>) -> (r: Option<(u32, u64)>)
        ensures
            final(self)@ == old(self)@.refreshed(active_tab),
            r == if old(self)@.due(active_tab) && !(old(self)@.rendered_tab == active_tab && old(
                self,
            )@.visible) {
                Some((active_tab->0, final(self)@.generation))
            } else {
                None
            },
    {
        let previous = self.last_active_tab;
        self.last_active_tab = active_tab;
        if let Some(previous_tab) = previous {
            let stays = match active_tab {
                Some(tab_id) => tab_id == previous_tab,
                None => false,
            };
            if !stays {
                self.forget(previous_tab);
            }
        }
        assert(self@ == old(self)@.moved(active_tab));
        let tab_id: u32 = match active_tab {
            Some(tab_id) => {
                if self.has_pending(tab_id) {
                    tab_id
                } else {
                    self.conceal();
                    return None;
                }
            },
            None => {
                self.conceal();
                return None;
            },
        };
        let shown = match self.rendered_tab {
            Some(rendered) => rendered == tab_id && self.visible,
            None => false,
        };
        if shown {
            return None;
        }
        self.rendered_tab = Some(tab_id);
        self.visible = true;
        let generation: u64 = self.bump_generation();
        Some((tab_id, generation))
    }

    /// The time of a showing is over: the legend goes away, unless it was shown anew or
    /// dismissed since.
    pub fn expire(&mut self, tab_id: u32, generation: u64)
        ensures
            final(self)@ == if old(self)@.generation == generation && old(self)@.rendered_tab
                == Some(tab_id) {
                old(self)@.dismissed(tab_id)
            } else {
                old(self)@
            },
    {
        if self.generation != generation {
            return ;
        }
        if let Some(shown) = self.rendered_tab {
            if shown == tab_id {
                let _ = self.dismiss_tab(tab_id);
            }
        }
    }
}

/// A tab's legend is shown once: when another tab gets the focus it is dismissed, and not
/// shown again on the way back.
pub proof fn law_legend_is_shown_once(legend: LegendView, tab_id: u32, other: Option<u32>)
    requires
        legend.last_active_tab == Some(tab_id),
        other != Some(tab_id),
    ensures
        !legend.refreshed(other).pending.contains(tab_id),
        !legend.refreshed(other).refreshed(Some(tab_id)).pending.contains(tab_id),
        !legend.refreshed(other).refreshed(Some(tab_id)).visible,
{
    lemma_without(legend.pending, tab_id);
    let moved = legend.refreshed(other);
    assert(moved.pending == without(legend.pending, tab_id));
    assert(!moved.pending.contains(tab_id));
    if let Some(last) = other {
        lemma_without(moved.pending, last);
        lemma_without_keeps_away(moved.pending, last, tab_id);
    }
}

/// A list without a tab does not hold it.
proof fn lemma_without(tabs: Seq<u32>, tab_id: u32)
    ensures
        !without(tabs, tab_id).contains(tab_id),
    decreases tabs.len(),
{
    reveal(Seq::filter);
    if tabs.len() > 0 {
        lemma_without(tabs.drop_last(), tab_id);
    }
}

/// Leaving out a tab brings no other tab in.
proof fn lemma_without_keeps_away(tabs: Seq<u32>, left_out: u32, tab_id: u32)
    requires
        !tabs.contains(tab_id),
    ensures
        !without(tabs, left_out).contains(tab_id),
    decreases tabs.len(),
{
    reveal(Seq::filter);
    if tabs.len() > 0 {
        let short = tabs.drop_last();
        assert(!short.contains(tab_id)) by {
            if short.contains(tab_id) {
                let k = choose|k: int| 0 <= k < short.len() && short[k] == tab_id;
                assert(tabs[k] == tab_id);
            }
        }
        lemma_without_keeps_away(short, left_out, tab_id);
        assert(tabs[tabs.len() - 1] != tab_id);
    }
}

/// The hint about a restored tab is shown when the tab is shown, for as long as it stays; it
/// is hidden when it is dismissed, and never comes back for that tab.
pub proof fn law_when_the_hint_is_shown(legend: LegendView, tab_id: u32, other: u32)
    ensures
        legend.pending.contains(tab_id) && legend.last_active_tab is None ==> legend.refreshed(
            Some(tab_id),
        ).visible && legend.refreshed(Some(tab_id)).rendered_tab == Some(tab_id),
        legend.pending.contains(tab_id) && legend.last_active_tab == Some(tab_id)
            ==> legend.refreshed(Some(tab_id)).visible && legend.refreshed(
            Some(tab_id),
        ).rendered_tab == Some(tab_id),
        !legend.pending.contains(tab_id) ==> !legend.refreshed(Some(tab_id)).visible,
        !legend.refreshed(None).visible,
        legend.refreshed(Some(tab_id)).last_active_tab == Some(tab_id),
        !legend.dismissed(tab_id).pending.contains(tab_id),
        legend.rendered_tab == Some(tab_id) ==> !legend.dismissed(tab_id).visible
            && legend.dismissed(tab_id).rendered_tab is None,
        legend.rendered_tab == Some(other) && other != tab_id ==> legend.dismissed(tab_id).visible
            == legend.visible && legend.dismissed(tab_id).rendered_tab == Some(other),
        other != tab_id && legend.pending.contains(other) ==> legend.dismissed(
            tab_id,
        ).pending.contains(other),
        !legend.hidden().visible && legend.hidden().rendered_tab is None,
        legend.hidden().generation != legend.generation,
        legend.hidden().pending == legend.pending,
        RESTORE_LEGEND_TIMEOUT_SECONDS == 10,
{
    lemma_left_without(legend.pending, tab_id, tab_id);
    lemma_left_without(legend.pending, tab_id, other);
    if let Some(last) = legend.last_active_tab {
        lemma_left_without(legend.pending, last, tab_id);
        assert(legend.moved(Some(tab_id)).pending.contains(tab_id) ==> legend.pending.contains(
            tab_id,
        ));
    }
}

/// What is left without a tab.
proof fn lemma_left_without(tabs: Seq<u32>, gone: u32, tab: u32)
    ensures
        without(tabs, gone).contains(tab) <==> tabs.contains(tab) && tab != gone,
    decreases tabs.len(),
{
    reveal(Seq::filter);
    if tabs.len() > 0 {
        let rest = tabs.drop_last();
        lemma_left_without(rest, gone, tab);
        let before = without(rest, gone);
        let last = tabs.last();
        assert(tabs.contains(tab) <==> rest.contains(tab) || tab == last) by {
            if tabs.contains(tab) && tab != last {
                let i = choose|i: int| 0 <= i < tabs.len() && tabs[i] == tab;
                assert(rest[i] == tab);
            }
            if rest.contains(tab) {
                let i = choose|i: int| 0 <= i < rest.len() && rest[i] == tab;
                assert(tabs[i] == tab);
            }
            assert(tabs[tabs.len() - 1] == last);
        }
        if last != gone {
            let after = before.push(last);
            assert(after.contains(tab) <==> before.contains(tab) || tab == last) by {
                if after.contains(tab) && tab != last {
                    let i = choose|i: int| 0 <= i < after.len() && after[i] == tab;
                    assert(before[i] == tab);
                }
                if before.contains(tab) {
                    let i = choose|i: int| 0 <= i < before.len() && before[i] == tab;
                    assert(after[i] == tab);
                }
                assert(after[after.len() - 1] == last);
            }
            assert(without(tabs, gone) == after);
        } else {
            assert(without(tabs, gone) == before);
        }
    } else {
        assert(without(tabs, gone) =~= tabs);
    }
}

} // verus!
