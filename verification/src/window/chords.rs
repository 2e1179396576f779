//! Keys that follow a chord: what they start, and how they are shown.

use vstd::prelude::*;
use vstd::string::*;
use crate::keybindings::Action;
use crate::workspace::{AppState, ChordMode, WorkspaceAction, WorkspaceActionInfo};

verus! {

/// What the keys that follow a chord stand for, in the order of the keys.
pub struct ChordMap<T> {
    pub entries: Vec<(char, T)>,
}

/// Whether the keys are in ascending order, each at most once.
pub open spec fn ascending_keys<T>(entries: Seq<(char, T)>) -> bool {
    forall|i: int, j: int|
        0 <= i < j < entries.len() ==> (#[trigger] entries[i]).0 < (#[trigger] entries[j]).0
}

/// What a key stands for.
pub open spec fn key_value<T>(entries: Seq<(char, T)>, key: char) -> Option<T>
    decreases entries.len(),
{
    if entries.len() == 0 {
        None
    } else if entries[0].0 == key {
        Some(entries[0].1)
    } else {
        key_value(entries.skip(1), key)
    }
}

/// A key that is there once stands for its value.
proof fn lemma_key_value_at<T>(entries: Seq<(char, T)>, i: int)
    requires
        ascending_keys(entries),
        0 <= i < entries.len(),
    ensures
        key_value(entries, entries[i].0) == Some(entries[i].1),
    decreases entries.len(),
{
    if i > 0 {
        assert(entries[0].0 != entries[i].0);
        let rest = entries.skip(1);
        assert forall|a: int, b: int| 0 <= a < b < rest.len() implies (#[trigger] rest[a]).0 < (#[trigger] rest[b]).0 by {
            assert(rest[a] == entries[a + 1] && rest[b] == entries[b + 1]);
        }
        lemma_key_value_at(rest, i - 1);
    }
}

/// A key that is not there stands for nothing.
proof fn lemma_key_value_none<T>(entries: Seq<(char, T)>, key: char)
    requires
        forall|i: int| 0 <= i < entries.len() ==> (#[trigger] entries[i]).0 != key,
    ensures
        key_value(entries, key) is None,
    decreases entries.len(),
{
    if entries.len() > 0 {
        let rest = entries.skip(1);
        assert forall|i: int| 0 <= i < rest.len() implies (#[trigger] rest[i]).0 != key by {
            assert(rest[i] == entries[i + 1]);
        }
        lemma_key_value_none(rest, key);
    }
}

/// What a key stands for is found at one place, or at none.
proof fn lemma_key_value_cases<T>(entries: Seq<(char, T)>, key: char)
    ensures
        match key_value(entries, key) {
            Some(value) => exists|i: int|
                0 <= i < entries.len() && #[trigger] entries[i] == (key, value),
            None => forall|i: int| 0 <= i < entries.len() ==> (#[trigger] entries[i]).0 != key,
        },
    decreases entries.len(),
{
    if entries.len() > 0 {
        if entries[0].0 == key {
            assert(entries[0] == (key, entries[0].1));
        } else {
            let rest = entries.skip(1);
            lemma_key_value_cases(rest, key);
            match key_value(rest, key) {
                Some(value) => {
                    let i = choose|i: int|
                        0 <= i < rest.len() && #[trigger] rest[i] == (key, value);
                    assert(entries[i + 1] == (key, value));
                },
                None => {
                    assert forall|i: int| 0 <= i < entries.len() implies (
                    #[trigger] entries[i]).0 != key by {
                        if i > 0 {
                            assert(rest[i - 1] == entries[i]);
                        }
                    }
                },
            }
        }
    }
}

impl<T> View for ChordMap<T> {
    type V = Map<char, T>;

    open spec fn view(&self) -> Map<char, T> {
        Map::new(
            |key: char| key_value(self.entries@, key) is Some,
            |key: char| key_value(self.entries@, key)->0,
        )
    }
}

impl<T: Copy> ChordMap<T> {
    /// The keys are in order.
    pub open spec fn wf(self) -> bool {
        ascending_keys(self.entries@)
    }

    /// A map without keys.
    pub fn new() -> (r: ChordMap<T>)
        ensures
            r.wf(),
            r@ == Map::<char, T>::empty(),
    {
        let r = ChordMap { entries: Vec::new() };
        assert(r@ =~= Map::<char, T>::empty());
        r
    }

    /// What the key stands for.
    pub fn get(&self, key: char) -> (r: Option<T>)
        ensures
            r == key_value(self.entries@, key),
            r is Some <==> self@.contains_key(key),
            r matches Some(value) ==> self@[key] == value,
    {
        let ghost all = self.entries@;
        let mut i: usize = 0;
        assert(all.skip(0) =~= all);
        while i < self.entries.len()
            invariant
                all == self.entries@,
                i <= all.len(),
                key_value(all.skip(i as int), key) == key_value(all, key),
            decreases all.len() - i,
        {
            assert(all.skip(i as int).skip(1) =~= all.skip(i + 1));
            if self.entries[i].0 == key {
                return Some(self.entries[i].1);
            }
            i += 1;
        }
        None
    }

    /// Lets a key stand for a value.
    pub fn insert(&mut self, key: char, value: T)
        requires
            old(self).wf(),
        ensures
            final(self).wf(),
            final(self)@ == old(self)@.insert(key, value),
    {
        let ghost before = self.entries@;
        let mut p: usize = 0;
        while p < self.entries.len() && self.entries[p].0 < key
            invariant
                self.entries@ == before,
                ascending_keys(before),
                p <= before.len(),
                forall|i: int| 0 <= i < p ==> (#[trigger] before[i]).0 < key,
            decreases before.len() - p,
        {
            p += 1;
        }
        if p < self.entries.len() && self.entries[p].0 == key {
            self.entries.set(p, (key, value));
            assert(self.entries@ =~= before.update(p as int, (key, value)));
        } else {
            assert forall|i: int| p <= i < before.len() implies key < (#[trigger] before[i]).0 by {
                if i > p {
                    assert(before[p as int].0 < before[i].0);
                }
                assert(before[p as int].0 != key);
            }
            self.entries.insert(p, (key, value));
            assert(self.entries@ =~= before.insert(p as int, (key, value)));
        }
        let ghost after = self.entries@;
        proof {
            assert forall|i: int, j: int| 0 <= i < j < after.len() implies (#[trigger] after[i]).0 < (#[trigger] after[j]).0 by {
                if after.len() == before.len() {
                    assert(before[i].0 < before[j].0);
                } else {
                    let a = if i < p {
                        i
                    } else {
                        i - 1
                    };
                    let b = if j < p {
                        j
                    } else {
                        j - 1
                    };
                    if i != p && j != p {
                        assert(after[i] == before[a] && after[j] == before[b]);
                        assert(before[a].0 < before[b].0);
                    } else if i == p {
                        assert(after[j] == before[b]);
                        assert(key < before[b].0);
                    } else {
                        assert(after[i] == before[a]);
                        assert(before[a].0 < key);
                    }
                }
            }
            assert(after[p as int] == (key, value));
            lemma_key_value_at(after, p as int);
            assert forall|other: char| other != key implies key_value(after, other) == key_value(
                before,
                other,
            ) by {
                lemma_same_elsewhere(before, after, key, p as int, other);
            }
            assert(self@ =~= old(self)@.insert(key, value));
        }
    }
}

/// Other keys stand for what they stood for before.
proof fn lemma_same_elsewhere<T>(
    before: Seq<(char, T)>,
    after: Seq<(char, T)>,
    key: char,
    p: int,
    other: char,
)
    requires
        ascending_keys(before),
        ascending_keys(after),
        other != key,
        0 <= p <= before.len(),
        (p < before.len() && before[p].0 == key && after == before.update(p, after[p])
            && after[p].0 == key) || (after == before.insert(p, after[p]) && after[p].0 == key),
    ensures
        key_value(after, other) == key_value(before, other),
{
    lemma_key_value_cases(before, other);
    match key_value(before, other) {
        Some(value) => {
            let i = choose|i: int|
                0 <= i < before.len() && #[trigger] before[i] == (other, value);
            let at = if after.len() == before.len() || i < p {
                i
            } else {
                i + 1
            };
            assert(after[at] == (other, value));
            lemma_key_value_at(after, at);
        },
        None => {
            assert forall|i: int| 0 <= i < after.len() implies (#[trigger] after[i]).0 != other by {
                if after.len() == before.len() {
                    if i != p {
                        assert(after[i] == before[i]);
                    }
                } else if i < p {
                    assert(after[i] == before[i]);
                } else if i > p {
                    assert(after[i] == before[i - 1]);
                }
            }
            lemma_key_value_none(after, other);
        },
    }
}

/// The workspace action that a key starts. `key` is the character of the key, if it has
/// one.
pub fn workspace_action_from_chord_key(
    key: Option<char>,
    chord_map: &ChordMap<WorkspaceAction>,
) -> (r: Option<WorkspaceAction>)
    ensures
        r == match key {
            Some(key) => key_value(chord_map.entries@, key),
            None => None,
        },
{
    match key {
        Some(key) => chord_map.get(key),
        None => None,
    }
}

/// The action of the window that a key starts. `key` is the character of the key, if it
/// has one.
pub fn leader_action_from_chord_key(key: Option<char>, leader_map: &ChordMap<Action>) -> (r: Option<
    Action,
>)
    ensures
        r == match key {
            Some(key) => key_value(leader_map.entries@, key),
            None => None,
        },
{
    match key {
        Some(key) => leader_map.get(key),
        None => None,
    }
}

/// What a hint of the overlay starts.
#[derive(Clone, Copy, Debug, PartialEq, Eq, Structural)]
pub enum ChordTarget {
    Bindable(Action),
    Workspace(WorkspaceAction),
}

/// A hint of the overlay: a key and what it starts.
pub struct ChordOverlayEntry {
    pub key_label: String,
    pub label: String,
    pub target: ChordTarget,
}

/// The mathematical value of a [`ChordOverlayEntry`].
pub struct HintView {
    pub key_label: Seq<char>,
    pub label: Seq<char>,
    pub target: ChordTarget,
}

impl DeepView for ChordOverlayEntry {
    type V = HintView;

    open spec fn deep_view(&self) -> HintView {
        HintView { key_label: self.key_label@, label: self.label@, target: self.target }
    }
}

/// A key as it is shown: ASCII letters in upper case.
pub open spec fn shown_key(ch: char) -> char {
    if 'a' <= ch && ch <= 'z' {
        ((ch as u8) - 32) as char
    } else {
        ch
    }
}

/// A key as it is shown: ASCII letters in upper case.
pub fn overlay_key_label(ch: char) -> (r: String)
    ensures
        r@ == seq![shown_key(ch)],
{
    let shown: char = if 'a' <= ch && ch <= 'z' {
        ((ch as u8) - 32) as char
    } else {
        ch
    };
    let mut r = String::new();
    r.push(shown);
    assert(r@ =~= seq![shown_key(ch)]);
    r
}

/// The text of a hint's button.
pub fn hint_text(entry: &ChordOverlayEntry) -> (r: String)
    ensures
        r@ == "["@ + entry.key_label@ + "]"@ + entry.label@,
{
    let mut r = "[".to_owned();
    r.append(entry.key_label.as_str());
    r.append("]");
    r.append(entry.label.as_str());
    r
}

/// The first key that stands for the action.
pub open spec fn first_key(
    entries: Seq<(char, WorkspaceAction)>,
    action: WorkspaceAction,
) -> Option<char>
    decreases entries.len(),
{
    if entries.len() == 0 {
        None
    } else if entries[0].1 == action {
        Some(entries[0].0)
    } else {
        first_key(entries.skip(1), action)
    }
}

/// The first key that stands for the action.
fn find_first_key(chord_map: &ChordMap<WorkspaceAction>, action: WorkspaceAction) -> (r: Option<
    char,
>)
    ensures
        r == first_key(chord_map.entries@, action),
{
    let ghost all = chord_map.entries@;
    let mut i: usize = 0;
    assert(all.skip(0) =~= all);
    while i < chord_map.entries.len()
        invariant
            all == chord_map.entries@,
            i <= all.len(),
            first_key(all.skip(i as int), action) == first_key(all, action),
        decreases all.len() - i,
    {
        assert(all.skip(i as int).skip(1) =~= all.skip(i + 1));
        if chord_map.entries[i].1 == action {
            return Some(chord_map.entries[i].0);
        }
        i += 1;
    }
    None
}

/// The hints for workspace actions: those that have a key.
pub open spec fn quick_hints(
    actions: Seq<WorkspaceActionInfo>,
    entries: Seq<(char, WorkspaceAction)>,
) -> Seq<HintView>
    decreases actions.len(),
{
    if actions.len() == 0 {
        Seq::empty()
    } else {
        let before = quick_hints(actions.drop_last(), entries);
        let info = actions.last();
        match first_key(entries, info.action) {
            Some(key) => before.push(
                HintView {
                    key_label: seq![shown_key(key)],
                    label: info.compact_label@,
                    target: ChordTarget::Workspace(info.action),
                },
            ),
            None => before,
        }
    }
}

/// The hints for the workspace actions of a tab: those that have a key, each with the
/// first of its keys.
pub fn quick_action_overlay_entries(
    actions: &Vec<WorkspaceActionInfo>,
    chord_map: &ChordMap<WorkspaceAction>,
) -> (r: Vec<ChordOverlayEntry>)
    ensures
        r.deep_view() == quick_hints(actions@, chord_map.entries@),
{
    let ghost all = actions@;
    let mut r: Vec<ChordOverlayEntry> = Vec::new();
    let mut i: usize = 0;
    assert(r.deep_view() =~= quick_hints(all.take(0), chord_map.entries@));
    while i < actions.len()
        invariant
            all == actions@,
            i <= all.len(),
            r.deep_view() == quick_hints(all.take(i as int), chord_map.entries@),
        decreases all.len() - i,
    {
        assert(all.take(i + 1).drop_last() =~= all.take(i as int));
        let info = &actions[i];
        if let Some(key) = find_first_key(chord_map, info.action) {
            let ghost before = r.deep_view();
            let hint = ChordOverlayEntry {
                key_label: overlay_key_label(key),
                label: info.compact_label.clone(),
                target: ChordTarget::Workspace(info.action),
            };
            let ghost shown = hint.deep_view();
            r.push(hint);
            assert(r.deep_view() =~= before.push(shown));
        }
        i += 1;
    }
    assert(all.take(i as int) =~= all);
    r
}

/// The hint of a key of the leader mode.
pub open spec fn leader_hint(entry: (char, Action), label: Seq<char>) -> HintView {
    HintView {
        key_label: seq![shown_key(entry.0)],
        label,
        target: ChordTarget::Bindable(entry.1),
    }
}

/// The hints for the keys of the leader mode, in the order of the keys. `labels` are the
/// names of the actions that they start.
pub fn leader_overlay_entries(leader_map: &ChordMap<Action>, labels: &Vec<String>) -> (r: Vec<
    ChordOverlayEntry,
>)
    requires
        labels.len() == leader_map.entries.len(),
    ensures
        r.deep_view() == Seq::new(
            labels@.len(),
            |i: int| leader_hint(leader_map.entries@[i], labels@[i]@),
        ),
{
    let ghost hints = Seq::new(
        labels@.len(),
        |i: int| leader_hint(leader_map.entries@[i], labels@[i]@),
    );
    let mut r: Vec<ChordOverlayEntry> = Vec::new();
    let mut i: usize = 0;
    assert(r.deep_view() =~= hints.take(0));
    while i < labels.len()
        invariant
            labels.len() == leader_map.entries.len(),
            hints == Seq::new(
                labels@.len(),
                |i: int| leader_hint(leader_map.entries@[i], labels@[i]@),
            ),
            i <= labels.len(),
            r.deep_view() == hints.take(i as int),
        decreases labels.len() - i,
    {
        let ghost before = r.deep_view();
        let hint = ChordOverlayEntry {
            key_label: overlay_key_label(leader_map.entries[i].0),
            label: labels[i].clone(),
            target: ChordTarget::Bindable(leader_map.entries[i].1),
        };
        assert(hint.deep_view() == hints[i as int]);
        r.push(hint);
        assert(r.deep_view() =~= before.push(hints[i as int]));
        assert(r.deep_view() =~= hints.take(i + 1));
        i += 1;
    }
    assert(hints.take(i as int) =~= hints);
    r
}

/// A key that was pressed.
#[derive(Clone, Copy, Debug, PartialEq, Eq, Structural)]
pub enum ChordKey {
    Escape,
    /// Any other key, with its character, if it has one.
    Other(Option<char>),
}

/// What a key does that was pressed while the overlay may be shown.
#[derive(Clone, Copy, Debug, PartialEq, Eq, Structural)]
pub enum ChordKeyEffect {
    /// The key is not for the overlay.
    Pass,
    /// The overlay takes the key and stays.
    Swallow,
    /// The overlay is closed.
    Dismiss,
    /// The overlay is closed after the workspace action was started.
    RunWorkspaceAction(WorkspaceAction),
    /// The overlay is closed before the action is started.
    Activate(Action),
}

/// What a key does.
pub open spec fn chord_key_effect(
    mode: Option<ChordMode>,
    overlay_visible: bool,
    key: ChordKey,
    quick: Seq<(char, WorkspaceAction)>,
    leader: Seq<(char, Action)>,
) -> ChordKeyEffect {
    match (mode, key) {
        (None, _) => ChordKeyEffect::Pass,
        (Some(mode), key) => if !overlay_visible {
            ChordKeyEffect::Pass
        } else {
            match key {
                ChordKey::Escape => ChordKeyEffect::Dismiss,
                ChordKey::Other(character) => match mode {
                    ChordMode::QuickAction => match character {
                        Some(c) => match key_value(quick, c) {
                            Some(action) => ChordKeyEffect::RunWorkspaceAction(action),
                            None => ChordKeyEffect::Swallow,
                        },
                        None => ChordKeyEffect::Swallow,
                    },
                    ChordMode::Leader => match character {
                        Some(c) => match key_value(leader, c) {
                            Some(action) => ChordKeyEffect::Activate(action),
                            None => ChordKeyEffect::Dismiss,
                        },
                        None => ChordKeyEffect::Dismiss,
                    },
                },
            }
        },
    }
}

/// What a key does while a chord waits for it: escape closes the overlay; a key that
/// stands for something starts it; any other key is swallowed by the quick actions, and
/// ends the leader mode.
pub fn follow_chord_key(
    mode: Option<ChordMode>,
    overlay_visible: bool,
    key: ChordKey,
    quick_action_map: &ChordMap<WorkspaceAction>,
    leader_map: &ChordMap<Action>,
) -> (r: ChordKeyEffect)
    ensures
        r == chord_key_effect(
            mode,
            overlay_visible,
            key,
            quick_action_map.entries@,
            leader_map.entries@,
        ),
{
    let mode = match mode {
        Some(mode) => mode,
        None => {
            return ChordKeyEffect::Pass;
        },
    };
    if !overlay_visible {
        return ChordKeyEffect::Pass;
    }
    let character = match key {
        ChordKey::Escape => {
            return ChordKeyEffect::Dismiss;
        },
        ChordKey::Other(character) => character,
    };
    match mode {
        ChordMode::QuickAction => match workspace_action_from_chord_key(
            character,
            quick_action_map,
        ) {
            Some(action) => ChordKeyEffect::RunWorkspaceAction(action),
            None => ChordKeyEffect::Swallow,
        },
        ChordMode::Leader => match leader_action_from_chord_key(character, leader_map) {
            Some(action) => ChordKeyEffect::Activate(action),
            None => ChordKeyEffect::Dismiss,
        },
    }
}

/// Every key of the leader mode that is no escape ends the mode.
pub proof fn law_leader_mode_takes_one_key(
    key: Option<char>,
    quick: Seq<(char, WorkspaceAction)>,
    leader: Seq<(char, Action)>,
)
    ensures
        ({
            let effect = chord_key_effect(
                Some(ChordMode::Leader),
                true,
                ChordKey::Other(key),
                quick,
                leader,
            );
            effect is Activate || effect is Dismiss
        }),
{
}

impl AppState {
    /// The chord that waits for a key.
    pub fn chord_mode(&self) -> (r: Option<ChordMode>)
        ensures
            r == self.chord,
    {
        self.chord
    }

    /// Whether a chord waits for a key.
    pub fn chord_active(&self) -> (r: bool)
        ensures
            r == (self.chord is Some),
    {
        self.chord.is_some()
    }

    /// Starts a chord, and gives its number.
    pub fn activate_chord(&mut self, mode: ChordMode) -> (generation: u64)
        ensures
            generation == wrapping_next(old(self).chord_generation),
            *final(self) == with_chord(*old(self), mode),
    {
        self.chord_generation = self.chord_generation.wrapping_add(1);
        self.chord = Some(mode);
        self.chord_generation
    }

    /// Ends the chord.
    pub fn dismiss_chord(&mut self)
        ensures
            *final(self) == (AppState { chord: None, ..*old(self) }),
    {
        self.chord = None;
    }

    /// Ends the chord with this number, if it still waits; tells whether it did.
    pub fn expire_chord(&mut self, generation: u64) -> (expired: bool)
        ensures
            expired == chord_waits(*old(self), generation),
            *final(self) == (if expired {
                AppState { chord: None, ..*old(self) }
            } else {
                *old(self)
            }),
    {
        if self.chord.is_some() && self.chord_generation == generation {
            self.chord = None;
            true
        } else {
            false
        }
    }
}

/// The number after this one, round and round.
pub open spec fn wrapping_next(generation: u64) -> u64 {
    if generation == u64::MAX {
        0
    } else {
        (generation + 1) as u64
    }
}

/// The state after a chord was started.
pub open spec fn with_chord(state: AppState, mode: ChordMode) -> AppState {
    AppState {
        chord: Some(mode),
        chord_generation: wrapping_next(state.chord_generation),
        ..state
    }
}

/// Whether the chord with this number still waits.
pub open spec fn chord_waits(state: AppState, generation: u64) -> bool {
    state.chord is Some && state.chord_generation == generation
}

/// A chord ends at its own time, not at that of the chord before it.
pub proof fn law_chords_have_their_own_time(state: AppState, mode: ChordMode)
    ensures
        chord_waits(with_chord(state, mode), wrapping_next(state.chord_generation)),
        !chord_waits(with_chord(state, mode), state.chord_generation),
{
}

/// A key does what it is bound to; the first binding counts, and other keys do nothing.
pub proof fn law_bound_keys<T>(entries: Seq<(char, T)>, key: char, i: int)
    ensures
        0 <= i < entries.len() && entries[i].0 == key && (forall|j: int|
            0 <= j < i ==> (#[trigger] entries[j]).0 != key) ==> key_value(entries, key) == Some(
            entries[i].1,
        ),
        (forall|j: int| 0 <= j < entries.len() ==> (#[trigger] entries[j]).0 != key) ==> key_value(
            entries,
            key,
        ) is None,
    decreases entries.len(),
{
    if entries.len() > 0 {
        let rest = entries.skip(1);
        law_bound_keys(rest, key, i - 1);
        if 0 < i < entries.len() && (forall|j: int| 0 <= j < i ==> (#[trigger] entries[j]).0 != key) {
            assert(entries[0].0 != key);
            assert(rest[i - 1] == entries[i]);
            assert forall|j: int| 0 <= j < i - 1 implies (#[trigger] rest[j]).0 != key by {
                assert(rest[j] == entries[j + 1]);
            }
        }
        if forall|j: int| 0 <= j < entries.len() ==> (#[trigger] entries[j]).0 != key {
            assert(entries[0].0 != key);
            assert forall|j: int| 0 <= j < rest.len() implies (#[trigger] rest[j]).0 != key by {
                assert(rest[j] == entries[j + 1]);
            }
        }
    }
}

/// While a chord waits, a bound key runs its action, Escape gives up, and no key reaches the
/// terminal; among quick actions another key is ignored, after the leader it gives up.
pub proof fn law_keys_of_chords(
    c: char,
    key: ChordKey,
    quick: Seq<(char, WorkspaceAction)>,
    leader: Seq<(char, Action)>,
    mode: ChordMode,
)
    ensures
        chord_key_effect(None, true, key, quick, leader) is Pass,
        chord_key_effect(Some(mode), false, key, quick, leader) is Pass,
        chord_key_effect(Some(mode), true, ChordKey::Escape, quick, leader) is Dismiss,
        key_value(quick, c) matches Some(action) ==> chord_key_effect(
            Some(ChordMode::QuickAction),
            true,
            ChordKey::Other(Some(c)),
            quick,
            leader,
        ) == ChordKeyEffect::RunWorkspaceAction(key_value(quick, c)->0),
        key_value(quick, c) is None ==> chord_key_effect(
            Some(ChordMode::QuickAction),
            true,
            ChordKey::Other(Some(c)),
            quick,
            leader,
        ) is Swallow,
        key_value(leader, c) matches Some(action) ==> chord_key_effect(
            Some(ChordMode::Leader),
            true,
            ChordKey::Other(Some(c)),
            quick,
            leader,
        ) == ChordKeyEffect::Activate(key_value(leader, c)->0),
        key_value(leader, c) is None ==> chord_key_effect(
            Some(ChordMode::Leader),
            true,
            ChordKey::Other(Some(c)),
            quick,
            leader,
        ) is Dismiss,
        chord_key_effect(Some(ChordMode::QuickAction), true, ChordKey::Other(None), quick, leader)
            is Swallow,
        chord_key_effect(Some(ChordMode::Leader), true, ChordKey::Other(None), quick, leader)
            is Dismiss,
{
}

/// The hints show the key of each action, as a capital letter, and what the action is called;
/// an action without a key has no hint.
pub proof fn law_hints_of_chords(
    actions: Seq<WorkspaceActionInfo>,
    info: WorkspaceActionInfo,
    entries: Seq<(char, WorkspaceAction)>,
    c: char,
    key: char,
    bound: Action,
    label: Seq<char>,
)
    ensures
        'a' <= c <= 'z' ==> shown_key(c) as int == c as int - 32,
        !('a' <= c <= 'z') ==> shown_key(c) == c,
        quick_hints(Seq::empty(), entries) == Seq::<HintView>::empty(),
        first_key(entries, info.action) is None ==> quick_hints(actions.push(info), entries)
            == quick_hints(actions, entries),
        first_key(entries, info.action) == Some(key) ==> quick_hints(actions.push(info), entries)
            == quick_hints(actions, entries).push(
            HintView {
                key_label: seq![shown_key(key)],
                label: info.compact_label@,
                target: ChordTarget::Workspace(info.action),
            },
        ),
        leader_hint((key, bound), label) == (HintView {
            key_label: seq![shown_key(key)],
            label,
            target: ChordTarget::Bindable(bound),
        }),
{
    assert(actions.push(info).drop_last() =~= actions);
}

/// The key of an action is the first that is bound to it.
pub proof fn law_keys_of_workspace_actions(
    entries: Seq<(char, WorkspaceAction)>,
    action: WorkspaceAction,
    i: int,
)
    ensures
        0 <= i < entries.len() && entries[i].1 == action && (forall|j: int|
            0 <= j < i ==> (#[trigger] entries[j]).1 != action) ==> first_key(entries, action)
            == Some(entries[i].0),
        (forall|j: int| 0 <= j < entries.len() ==> (#[trigger] entries[j]).1 != action)
            ==> first_key(entries, action) is None,
    decreases entries.len(),
{
    if entries.len() > 0 {
        let rest = entries.skip(1);
        law_keys_of_workspace_actions(rest, action, i - 1);
        if 0 < i < entries.len() && (forall|j: int|
            0 <= j < i ==> (#[trigger] entries[j]).1 != action) {
            assert(entries[0].1 != action);
            assert(rest[i - 1] == entries[i]);
            assert forall|j: int| 0 <= j < i - 1 implies (#[trigger] rest[j]).1 != action by {
                assert(rest[j] == entries[j + 1]);
            }
        }
        if forall|j: int| 0 <= j < entries.len() ==> (#[trigger] entries[j]).1 != action {
            assert(entries[0].1 != action);
            assert forall|j: int| 0 <= j < rest.len() implies (#[trigger] rest[j]).1 != action by {
                assert(rest[j] == entries[j + 1]);
            }
        }
    }
}

/// A chord that begins waits in its mode, and nothing else of the state changes.
pub proof fn law_chords_begin(state: AppState, mode: ChordMode, generation: u64)
    ensures
        with_chord(state, mode).chord == Some(mode),
        with_chord(state, mode).chord_generation != state.chord_generation,
        with_chord(state, mode) == (AppState {
            chord: Some(mode),
            chord_generation: with_chord(state, mode).chord_generation,
            ..state
        }),
        state.chord is None ==> !chord_waits(state, generation),
        generation != state.chord_generation ==> !chord_waits(state, generation),
        state.chord is Some ==> chord_waits(state, state.chord_generation),
{
}

} // verus!
