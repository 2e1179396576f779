//! Sending text to a pane, and the clipboard's history.

use vstd::prelude::*;
use vstd::string::*;
use crate::palette::entry;
use crate::palette::entry::{
    list_with_way_back, push_entry, push_plain, ActionView, EntryView, PaletteAction, PaletteEntry,
};
use crate::pane::PaneLeaf;
use crate::performance::{AgentStatus, RuntimeProbeSnapshot};
use crate::text;
use crate::text::{chars_of, decimal_text, is_whitespace, join_texts, split_text, string_of};
use crate::workspace::{AppState, Tab};

verus! {

/// The text that goes to a pane, captured before the pane is chosen.
pub enum SendPayloadSource {
    /// The selection; without one, what the clipboard holds at delivery.
    SelectionOrClipboard { selection: Option<String> },
    /// The recent output of a pane.
    LastOutput(String),
    /// The last message of an agent.
    LastMessage(String),
}

/// The mathematical value of a [`SendPayloadSource`].
pub enum SourceView {
    SelectionOrClipboard { selection: Option<Seq<char>> },
    LastOutput(Seq<char>),
    LastMessage(Seq<char>),
}

impl DeepView for SendPayloadSource {
    type V = SourceView;

    open spec fn deep_view(&self) -> SourceView {
        match self {
            SendPayloadSource::SelectionOrClipboard {
                selection,
            } => SourceView::SelectionOrClipboard { selection: selection.deep_view() },
            SendPayloadSource::LastOutput(text) => SourceView::LastOutput(text@),
            SendPayloadSource::LastMessage(text) => SourceView::LastMessage(text@),
        }
    }
}

/// What the list of panes says of the text.
pub open spec fn source_label(source: Option<SourceView>) -> Seq<char> {
    match source {
        Some(SourceView::LastOutput(_)) => "Sending: recent output"@,
        Some(SourceView::LastMessage(_)) => "Sending: last agent message"@,
        Some(SourceView::SelectionOrClipboard { selection: Some(_) }) =>
        "Sending: current selection"@,
        Some(SourceView::SelectionOrClipboard { selection: None }) => "Sending: clipboard text"@,
        None => "Sending: current selection or clipboard"@,
    }
}

/// What the list of panes says of the text that will be sent.
pub fn send_source_label(source: &Option<SendPayloadSource>) -> (r: String)
    ensures
        r@ == source_label(source.deep_view()),
{
    match source {
        Some(SendPayloadSource::LastOutput(_)) => "Sending: recent output".to_owned(),
        Some(SendPayloadSource::LastMessage(_)) => "Sending: last agent message".to_owned(),
        Some(SendPayloadSource::SelectionOrClipboard { selection: Some(_) }) => {
            "Sending: current selection".to_owned()
        },
        Some(SendPayloadSource::SelectionOrClipboard { selection: None }) => {
            "Sending: clipboard text".to_owned()
        },
        None => "Sending: current selection or clipboard".to_owned(),
    }
}

/// The text that is already there; none where the clipboard has to be read.
pub open spec fn captured_text(source: Option<SourceView>) -> Option<Seq<char>> {
    match source {
        Some(SourceView::LastOutput(text)) => Some(text),
        Some(SourceView::LastMessage(text)) => Some(text),
        Some(SourceView::SelectionOrClipboard { selection }) => selection,
        None => None,
    }
}

/// The text that is already there; none where the clipboard has to be read.
pub fn inline_send_text(source: &Option<SendPayloadSource>) -> (r: Option<String>)
    ensures
        r.deep_view() == captured_text(source.deep_view()),
{
    match source {
        Some(SendPayloadSource::LastOutput(text)) => Some(text.clone()),
        Some(SendPayloadSource::LastMessage(text)) => Some(text.clone()),
        Some(SendPayloadSource::SelectionOrClipboard { selection: Some(text) }) => Some(
            text.clone(),
        ),
        Some(SendPayloadSource::SelectionOrClipboard { selection: None }) => None,
        None => None,
    }
}

/// Whether a message of the active pane's agent could be read.
pub enum LastAgentMessageResolution {
    Transcript(String),
    Unavailable { agent: String, reason: String },
}

/// The text of the last message, or else the recent output, or else the clipboard, with
/// what the user is told where there was no message.
pub fn relay_last_message_source(
    resolution: LastAgentMessageResolution,
    recent_output: Option<String>,
) -> (r: (SendPayloadSource, Option<String>))
    ensures
        match resolution {
            LastAgentMessageResolution::Transcript(text) => {
                &&& r.0.deep_view() == SourceView::LastMessage(text@)
                &&& r.1 is None
            },
            LastAgentMessageResolution::Unavailable { agent, reason } => {
                &&& r.0.deep_view() == match recent_output {
                    Some(text) => SourceView::LastOutput(text@),
                    None => SourceView::SelectionOrClipboard { selection: None },
                }
                &&& r.1.deep_view() == Some(
                    agent@ + ": "@ + reason@ + "; relaying recent output instead"@,
                )
            },
        },
{
    match resolution {
        LastAgentMessageResolution::Transcript(text) => {
            (SendPayloadSource::LastMessage(text), None)
        },
        LastAgentMessageResolution::Unavailable { agent, reason } => {
            let mut notice = agent.clone();
            notice.append(": ");
            notice.append(reason.as_str());
            notice.append("; relaying recent output instead");
            let source = match recent_output {
                Some(text) => SendPayloadSource::LastOutput(text),
                None => SendPayloadSource::SelectionOrClipboard { selection: None },
            };
            (source, Some(notice))
        },
    }
}

/// What an agent was last seen doing.
#[derive(Clone, Copy, Debug, PartialEq, Eq, Structural)]
pub enum AgentActivityState {
    Idle,
    Running,
    WaitingInput,
    Errored,
    Done,
}

/// What an agent does, in a word.
pub open spec fn activity_word(state: AgentActivityState) -> Seq<char> {
    match state {
        AgentActivityState::Idle => "idle"@,
        AgentActivityState::Running => "running"@,
        AgentActivityState::WaitingInput => "waiting-input"@,
        AgentActivityState::Errored => "errored"@,
        AgentActivityState::Done => "done"@,
    }
}

/// What an agent does, in a word.
pub fn send_activity_label(state: AgentActivityState) -> (r: &'static str)
    ensures
        r@ == activity_word(state),
{
    match state {
        AgentActivityState::Idle => "idle",
        AgentActivityState::Running => "running",
        AgentActivityState::WaitingInput => "waiting-input",
        AgentActivityState::Errored => "errored",
        AgentActivityState::Done => "done",
    }
}

/// The status of the agent in a pane, as probing found it.
pub open spec fn agent_in_pane(
    agents: Seq<((u32, u32), AgentStatus)>,
    tab_id: u32,
    pane_id: u32,
) -> Option<AgentStatus>
    decreases agents.len(),
{
    if agents.len() == 0 {
        None
    } else if agents[0].0 == (tab_id, pane_id) {
        Some(agents[0].1)
    } else {
        agent_in_pane(agents.skip(1), tab_id, pane_id)
    }
}

/// The panes in which an agent runs, with its status.
pub open spec fn running_agents(
    leaves: Seq<PaneLeaf>,
    tab_id: u32,
    agents: Seq<((u32, u32), AgentStatus)>,
) -> Seq<(u32, AgentStatus)>
    decreases leaves.len(),
{
    if leaves.len() == 0 {
        Seq::empty()
    } else {
        let before = running_agents(leaves.drop_last(), tab_id, agents);
        match agent_in_pane(agents, tab_id, leaves.last().pane_id) {
            Some(status) => if status.running {
                before.push((leaves.last().pane_id, status))
            } else {
                before
            },
            None => before,
        }
    }
}

/// The status of the agent in a pane, as probing found it.
fn find_agent(
    agents: &Vec<((u32, u32), AgentStatus)>,
    tab_id: u32,
    pane_id: u32,
) -> (r: Option<&AgentStatus>)
    ensures
        r is Some <==> agent_in_pane(agents@, tab_id, pane_id) is Some,
        r matches Some(status) ==> agent_in_pane(agents@, tab_id, pane_id) == Some(*status),
{
    let ghost all = agents@;
    let mut i: usize = 0;
    assert(all.skip(0) =~= all);
    while i < agents.len()
        invariant
            all == agents@,
            i <= all.len(),
            agent_in_pane(all.skip(i as int), tab_id, pane_id) == agent_in_pane(
                all,
                tab_id,
                pane_id,
            ),
        decreases all.len() - i,
    {
        assert(all.skip(i as int).skip(1) =~= all.skip(i + 1));
        if agents[i].0.0 == tab_id && agents[i].0.1 == pane_id {
            return Some(&agents[i].1);
        }
        i += 1;
    }
    None
}

/// The panes of a tab in which an agent runs, in the order of the panes.
pub fn running_agents_of_tab<'a>(tab: &Tab, snapshot: &'a RuntimeProbeSnapshot) -> (r: Vec<
    (u32, &'a AgentStatus),
>)
    ensures
        r@.len() == running_agents(tab.panes.live(), tab.id, snapshot.pane_agents@).len(),
        forall|i: int|
            0 <= i < r@.len() ==> ((#[trigger] r@[i]).0, *r@[i].1) == running_agents(
                tab.panes.live(),
                tab.id,
                snapshot.pane_agents@,
            )[i],
{
    let leaves = tab.panes.leaves();
    let ghost all = tab.panes.live();
    let ghost agents = snapshot.pane_agents@;
    let mut r: Vec<(u32, &'a AgentStatus)> = Vec::new();
    let mut i: usize = 0;
    while i < leaves.len()
        invariant
            i <= leaves.len(),
            leaves@.len() == all.len(),
            forall|k: int| 0 <= k < leaves@.len() ==> *(#[trigger] leaves@[k]) == all[k],
            agents == snapshot.pane_agents@,
            r@.len() == running_agents(all.take(i as int), tab.id, agents).len(),
            forall|k: int|
                0 <= k < r@.len() ==> ((#[trigger] r@[k]).0, *r@[k].1) == running_agents(
                    all.take(i as int),
                    tab.id,
                    agents,
                )[k],
        decreases leaves.len() - i,
    {
        assert(all.take(i + 1).drop_last() =~= all.take(i as int));
        assert(*leaves@[i as int] == all[i as int]);
        let pane_id: u32 = leaves[i].pane_id;
        if let Some(status) = find_agent(&snapshot.pane_agents, tab.id, pane_id) {
            if status.running {
                r.push((pane_id, status));
            }
        }
        i += 1;
    }
    assert(all.take(i as int) =~= all);
    r
}

/// The name that is shown for the agent in a pane.
pub struct PaneAgentLabel {
    pub tab_id: u32,
    pub pane_id: u32,
    pub label: String,
}

/// What the agent in a pane was last seen doing.
#[derive(Clone, Copy)]
pub struct PaneActivity {
    pub tab_id: u32,
    pub pane_id: u32,
    pub state: AgentActivityState,
}

/// A pane that text can be sent to.
pub struct SendTargetPane {
    pub tab_id: u32,
    pub pane_id: u32,
    pub label: String,
}

/// The mathematical value of a [`SendTargetPane`].
pub struct SendTargetView {
    pub tab_id: u32,
    pub pane_id: u32,
    pub label: Seq<char>,
}

impl DeepView for SendTargetPane {
    type V = SendTargetView;

    open spec fn deep_view(&self) -> SendTargetView {
        SendTargetView { tab_id: self.tab_id, pane_id: self.pane_id, label: self.label@ }
    }
}

/// The name of the agent in a pane; a pane without one runs a shell.
pub open spec fn agent_name(agents: Seq<PaneAgentLabel>, tab_id: u32, pane_id: u32) -> Seq<char>
    decreases agents.len(),
{
    if agents.len() == 0 {
        "shell"@
    } else if agents[0].tab_id == tab_id && agents[0].pane_id == pane_id {
        agents[0].label@
    } else {
        agent_name(agents.skip(1), tab_id, pane_id)
    }
}

/// What goes on in a pane: what its agent does; else a live shell is idle.
pub open spec fn pane_word(
    activities: Seq<PaneActivity>,
    tab_id: u32,
    leaf: PaneLeaf,
) -> Option<Seq<char>>
    decreases activities.len(),
{
    if activities.len() == 0 {
        if leaf.shell_pid is Some {
            Some("idle"@)
        } else {
            None
        }
    } else if activities[0].tab_id == tab_id && activities[0].pane_id == leaf.pane_id {
        Some(activity_word(activities[0].state))
    } else {
        pane_word(activities.skip(1), tab_id, leaf)
    }
}

/// A pane with the text that it is offered with.
pub open spec fn send_target(
    tab_id: u32,
    leaf: PaneLeaf,
    agents: Seq<PaneAgentLabel>,
    activities: Seq<PaneActivity>,
) -> SendTargetView {
    let head = agent_name(agents, tab_id, leaf.pane_id) + " · pane "@ + text::decimal(
        leaf.pane_id as nat,
    );
    SendTargetView {
        tab_id,
        pane_id: leaf.pane_id,
        label: match pane_word(activities, tab_id, leaf) {
            Some(word) => head + " · "@ + word,
            None => head,
        },
    }
}

/// The panes of a tab.
pub open spec fn tab_targets(
    tab: Tab,
    agents: Seq<PaneAgentLabel>,
    activities: Seq<PaneActivity>,
) -> Seq<SendTargetView> {
    tab.panes.live().map_values(|leaf: PaneLeaf| send_target(tab.id, leaf, agents, activities))
}

/// The panes of several tabs.
pub open spec fn tabs_targets(
    tabs: Seq<Tab>,
    agents: Seq<PaneAgentLabel>,
    activities: Seq<PaneActivity>,
) -> Seq<SendTargetView>
    decreases tabs.len(),
{
    if tabs.len() == 0 {
        Seq::empty()
    } else {
        tabs_targets(tabs.drop_last(), agents, activities) + tab_targets(
            tabs.last(),
            agents,
            activities,
        )
    }
}

/// The panes that text can be sent to: those of the active workspace.
pub open spec fn send_targets(
    state: AppState,
    agents: Seq<PaneAgentLabel>,
    activities: Seq<PaneActivity>,
) -> Seq<SendTargetView> {
    match state.active_workspace_value() {
        Some(ws) => tabs_targets(ws.tabs@, agents, activities),
        None => Seq::empty(),
    }
}

/// The name of the agent in a pane.
fn find_agent_name(agents: &Vec<PaneAgentLabel>, tab_id: u32, pane_id: u32) -> (r: String)
    ensures
        r@ == agent_name(agents@, tab_id, pane_id),
{
    let ghost all = agents@;
    let mut i: usize = 0;
    assert(all.skip(0) =~= all);
    while i < agents.len()
        invariant
            all == agents@,
            i <= all.len(),
            agent_name(all.skip(i as int), tab_id, pane_id) == agent_name(all, tab_id, pane_id),
        decreases all.len() - i,
    {
        assert(all.skip(i as int).skip(1) =~= all.skip(i + 1));
        if agents[i].tab_id == tab_id && agents[i].pane_id == pane_id {
            return agents[i].label.clone();
        }
        i += 1;
    }
    "shell".to_owned()
}

/// What goes on in a pane.
fn find_pane_word(activities: &Vec<PaneActivity>, tab_id: u32, leaf: &PaneLeaf) -> (r: Option<
    &'static str,
>)
    ensures
        r is Some <==> pane_word(activities@, tab_id, *leaf) is Some,
        r matches Some(word) ==> pane_word(activities@, tab_id, *leaf) == Some(word@),
{
    let ghost all = activities@;
    let mut i: usize = 0;
    assert(all.skip(0) =~= all);
    while i < activities.len()
        invariant
            all == activities@,
            i <= all.len(),
            pane_word(all.skip(i as int), tab_id, *leaf) == pane_word(all, tab_id, *leaf),
        decreases all.len() - i,
    {
        assert(all.skip(i as int).skip(1) =~= all.skip(i + 1));
        if activities[i].tab_id == tab_id && activities[i].pane_id == leaf.pane_id {
            return Some(send_activity_label(activities[i].state));
        }
        i += 1;
    }
    if leaf.shell_pid.is_some() {
        Some("idle")
    } else {
        None
    }
}

/// A pane with the text that it is offered with.
fn send_target_of(
    tab_id: u32,
    leaf: &PaneLeaf,
    agents: &Vec<PaneAgentLabel>,
    activities: &Vec<PaneActivity>,
) -> (r: SendTargetPane)
    ensures
        r.deep_view() == send_target(tab_id, *leaf, agents@, activities@),
{
    let mut label = find_agent_name(agents, tab_id, leaf.pane_id);
    label.append(" · pane ");
    let number = decimal_text(leaf.pane_id as u64);
    label.append(number.as_str());
    if let Some(word) = find_pane_word(activities, tab_id, leaf) {
        label.append(" · ");
        label.append(word);
    }
    SendTargetPane { tab_id, pane_id: leaf.pane_id, label }
}

/// The panes of the active workspace, each with the name of its agent and what goes on in
/// it.
pub fn send_target_panes(
    state: &AppState,
    agents: &Vec<PaneAgentLabel>,
    activities: &Vec<PaneActivity>,
) -> (r: Vec<SendTargetPane>)
    ensures
        r.deep_view() == send_targets(*state, agents@, activities@),
{
    let mut r: Vec<SendTargetPane> = Vec::new();
    assert(r.deep_view() =~= Seq::<SendTargetView>::empty());
    let ws = match state.active_ws() {
        Some(ws) => ws,
        None => {
            return r;
        },
    };
    let ghost all = ws.tabs@;
    let mut i: usize = 0;
    assert(tabs_targets(all.take(0), agents@, activities@) =~= Seq::<SendTargetView>::empty());
    while i < ws.tabs.len()
        invariant
            all == ws.tabs@,
            i <= all.len(),
            r.deep_view() == tabs_targets(all.take(i as int), agents@, activities@),
        decreases all.len() - i,
    {
        assert(all.take(i + 1).drop_last() =~= all.take(i as int));
        let ghost done = r.deep_view();
        let tab = &ws.tabs[i];
        let leaves = tab.panes.leaves();
        let ghost shown = tab_targets(*tab, agents@, activities@);
        let mut j: usize = 0;
        assert(r.deep_view() =~= done + shown.take(0));
        while j < leaves.len()
            invariant
                j <= leaves.len(),
                leaves@.len() == tab.panes.live().len(),
                forall|k: int|
                    0 <= k < leaves@.len() ==> *(#[trigger] leaves@[k]) == tab.panes.live()[k],
                shown == tab_targets(*tab, agents@, activities@),
                r.deep_view() == done + shown.take(j as int),
            decreases leaves.len() - j,
        {
            let ghost before = r.deep_view();
            let target = send_target_of(tab.id, leaves[j], agents, activities);
            assert(*leaves@[j as int] == tab.panes.live()[j as int]);
            assert(target.deep_view() == shown[j as int]);
            r.push(target);
            assert(r.deep_view() =~= before.push(shown[j as int]));
            assert(r.deep_view() =~= done + shown.take(j + 1));
            j += 1;
        }
        assert(shown.take(j as int) =~= shown);
        i += 1;
    }
    assert(all.take(i as int) =~= all);
    r
}

/// The two entries for each pane: to put the text there, and to run it too.
pub open spec fn target_entries(targets: Seq<SendTargetView>) -> Seq<EntryView>
    decreases targets.len(),
{
    if targets.len() == 0 {
        Seq::empty()
    } else {
        let target = targets.last();
        target_entries(targets.drop_last()).push(
            entry::plain(
                "Send → "@ + target.label,
                ActionView::SendToPane { tab_id: target.tab_id, pane_id: target.pane_id, run: false },
            ),
        ).push(
            entry::plain(
                "Send + Run ⏎ "@ + target.label,
                ActionView::SendToPane { tab_id: target.tab_id, pane_id: target.pane_id, run: true },
            ),
        )
    }
}

/// The entries that ask for a pane.
pub open spec fn send_entries(
    source_label: Seq<char>,
    targets: Seq<SendTargetView>,
) -> Seq<EntryView> {
    seq![entry::back_entry(), entry::plain(source_label, ActionView::Noop)] + if targets.len() == 0 {
        seq![entry::plain("No panes available to send to."@, ActionView::Noop)]
    } else {
        target_entries(targets)
    }
}

/// The entries that ask for a pane: the way back, what will be sent, and two entries for
/// each pane.
pub fn build_send_to_pane_entries(source_label: &str, targets: &Vec<SendTargetPane>) -> (r: Vec<
    PaletteEntry,
>)
    ensures
        r.deep_view() == send_entries(source_label@, targets.deep_view()),
{
    let mut entries = list_with_way_back();
    push_plain(&mut entries, source_label, PaletteAction::Noop);
    let ghost head = entries.deep_view();
    assert(head =~= seq![entry::back_entry(), entry::plain(source_label@, ActionView::Noop)]);
    if targets.len() == 0 {
        push_plain(&mut entries, "No panes available to send to.", PaletteAction::Noop);
        assert(entries.deep_view() =~= send_entries(source_label@, targets.deep_view()));
        return entries;
    }
    let ghost all = targets.deep_view();
    let mut i: usize = 0;
    assert(entries.deep_view() =~= head + target_entries(all.take(0)));
    while i < targets.len()
        invariant
            all == targets.deep_view(),
            i <= targets.len(),
            entries.deep_view() == head + target_entries(all.take(i as int)),
        decreases targets.len() - i,
    {
        assert(all.take(i + 1).drop_last() =~= all.take(i as int));
        let target = &targets[i];
        assert(all[i as int] == target.deep_view());
        let mut label = "Send → ".to_owned();
        label.append(target.label.as_str());
        push_entry(
            &mut entries,
            label,
            None,
            PaletteAction::SendToPane { tab_id: target.tab_id, pane_id: target.pane_id, run: false },
        );
        let mut run_label = "Send + Run ⏎ ".to_owned();
        run_label.append(target.label.as_str());
        push_entry(
            &mut entries,
            run_label,
            None,
            PaletteAction::SendToPane { tab_id: target.tab_id, pane_id: target.pane_id, run: true },
        );
        assert(entries.deep_view() =~= head + target_entries(all.take(i + 1)));
        i += 1;
    }
    assert(all.take(i as int) =~= all);
    entries
}

/// `line` without the carriage return at its end.
pub open spec fn without_return(line: Seq<char>) -> Seq<char> {
    if line.len() > 0 && line.last() == '\r' {
        line.drop_last()
    } else {
        line
    }
}

/// The lines of a text. A line ends with a new line, which a carriage return may precede;
/// what follows the last new line is a line where it is not empty.
pub open spec fn lines_of(text: Seq<char>) -> Seq<Seq<char>> {
    let pieces = text::split_on(text, '\n');
    let ended = pieces.drop_last().map_values(|line: Seq<char>| without_return(line));
    if pieces.last().len() == 0 {
        ended
    } else {
        ended.push(pieces.last())
    }
}

/// The lines of a text.
pub fn text_lines(text: &str) -> (r: Vec<String>)
    ensures
        r.deep_view() == lines_of(text@),
{
    let pieces = split_text(text, '\n');
    let ghost all = pieces.deep_view();
    proof {
        text::lemma_split_on_len(text@, '\n');
    }
    let mut r: Vec<String> = Vec::new();
    let mut i: usize = 0;
    let ghost ended = all.drop_last().map_values(|line: Seq<char>| without_return(line));
    assert(r.deep_view() =~= ended.take(0));
    while i + 1 < pieces.len()
        invariant
            all == pieces.deep_view(),
            pieces.len() > 0,
            i < pieces.len(),
            ended == all.drop_last().map_values(|line: Seq<char>| without_return(line)),
            r.deep_view() == ended.take(i as int),
        decreases pieces.len() - i,
    {
        let chars = chars_of(pieces[i].as_str());
        let end: usize = if chars.len() > 0 && chars[chars.len() - 1] == '\r' {
            chars.len() - 1
        } else {
            chars.len()
        };
        let line = string_of(&chars, 0, end);
        assert(all[i as int] == pieces[i as int]@);
        assert(line@ =~= ended[i as int]);
        let ghost before = r.deep_view();
        r.push(line);
        assert(r.deep_view() =~= before.push(line@));
        assert(r.deep_view() =~= ended.take(i + 1));
        i += 1;
    }
    assert(ended.take(i as int) =~= ended);
    assert(all.last() == pieces[i as int]@);
    if !pieces[i].as_str().is_empty() {
        let ghost before = r.deep_view();
        r.push(pieces[i].clone());
        assert(r.deep_view() =~= before.push(all.last()));
    }
    r
}

/// How many lines of a copied text are shown.
pub const PREVIEW_LINES: usize = 3;

/// How many characters of a copied text are shown.
pub const PREVIEW_CHARS: usize = 240;

/// Whether a text holds white space only.
pub open spec fn is_blank(text: Seq<char>) -> bool {
    forall|i: int| 0 <= i < text.len() ==> text::is_space(#[trigger] text[i])
}

/// The beginning of a copied text, with a mark where something is left out.
pub open spec fn preview(text: Seq<char>) -> Seq<char> {
    let lines = lines_of(text);
    let head = text::joined(
        if lines.len() > PREVIEW_LINES {
            lines.take(PREVIEW_LINES as int)
        } else {
            lines
        },
        "\n"@,
    );
    let shown = if head.len() > PREVIEW_CHARS {
        head.take(PREVIEW_CHARS as int)
    } else {
        head
    };
    if is_blank(text) {
        "(whitespace)"@
    } else if lines.len() > PREVIEW_LINES || head.len() > PREVIEW_CHARS {
        shown.push('…')
    } else {
        shown
    }
}

/// Whether a text holds white space only.
fn blank_text(text: &str) -> (r: bool)
    ensures
        r == is_blank(text@),
{
    let chars = chars_of(text);
    let mut i: usize = 0;
    while i < chars.len()
        invariant
            chars@ == text@,
            i <= chars.len(),
            forall|k: int| 0 <= k < i ==> text::is_space(#[trigger] text@[k]),
        decreases chars.len() - i,
    {
        if !is_whitespace(chars[i]) {
            assert(!text::is_space(text@[i as int]));
            return false;
        }
        i += 1;
    }
    true
}

/// The beginning of a copied text: three lines and 240 characters at most, with an
/// ellipsis where something is left out. A text of white space alone is shown by a word.
pub fn clipboard_preview(text: &str) -> (r: String)
    ensures
        r@ == preview(text@),
{
    if blank_text(text) {
        return "(whitespace)".to_owned();
    }
    let lines = text_lines(text);
    let mut truncated = false;
    let head = if lines.len() > PREVIEW_LINES {
        truncated = true;
        let mut first: Vec<String> = Vec::new();
        let mut i: usize = 0;
        assert(first.deep_view() =~= lines.deep_view().take(0));
        while i < PREVIEW_LINES
            invariant
                i <= PREVIEW_LINES < lines.len(),
                first.deep_view() == lines.deep_view().take(i as int),
            decreases PREVIEW_LINES - i,
        {
            let ghost before = first.deep_view();
            first.push(lines[i].clone());
            assert(first.deep_view() =~= before.push(lines[i as int]@));
            assert(first.deep_view() =~= lines.deep_view().take(i + 1));
            i += 1;
        }
        join_texts(&first, "\n")
    } else {
        join_texts(&lines, "\n")
    };
    let chars = chars_of(head.as_str());
    let end: usize = if chars.len() > PREVIEW_CHARS {
        truncated = true;
        PREVIEW_CHARS
    } else {
        chars.len()
    };
    assert(chars@.take(end as int) =~= if head@.len() > PREVIEW_CHARS {
        head@.take(PREVIEW_CHARS as int)
    } else {
        head@
    });
    let mut r = string_of(&chars, 0, end);
    assert(r@ =~= chars@.take(end as int));
    if truncated {
        r.push('…');
    }
    r
}

/// A text that was copied.
pub struct ClipboardEntry {
    pub text: String,
    /// Where the text was copied.
    pub source: String,
}

/// The two entries for each copied text: to copy it again, and to send it to a pane.
pub open spec fn copied_entries(copied: Seq<ClipboardEntry>) -> Seq<EntryView>
    decreases copied.len(),
{
    if copied.len() == 0 {
        Seq::empty()
    } else {
        let last = copied.last();
        copied_entries(copied.drop_last()).push(
            EntryView {
                label: preview(last.text@),
                shortcut: Some(last.source@),
                action: ActionView::CopyClipboardEntry(last.text@),
            },
        ).push(entry::plain("  ↳ Send to pane…"@, ActionView::OpenSendToPaneWithText(last.text@)))
    }
}

/// The entries of the clipboard's history.
pub open spec fn history_entries(copied: Seq<ClipboardEntry>) -> Seq<EntryView> {
    seq![entry::back_entry()] + if copied.len() == 0 {
        seq![entry::plain("Clipboard history is empty."@, ActionView::Noop)]
    } else {
        copied_entries(copied)
    }
}

/// The entries of the clipboard's history: the way back, and two entries for each text.
pub fn build_clipboard_history_entries(snapshot: &Vec<ClipboardEntry>) -> (r: Vec<PaletteEntry>)
    ensures
        r.deep_view() == history_entries(snapshot@),
{
    let mut entries = list_with_way_back();
    let ghost head = entries.deep_view();
    if snapshot.len() == 0 {
        push_plain(&mut entries, "Clipboard history is empty.", PaletteAction::Noop);
        assert(entries.deep_view() =~= history_entries(snapshot@));
        return entries;
    }
    let ghost all = snapshot@;
    let mut i: usize = 0;
    assert(entries.deep_view() =~= head + copied_entries(all.take(0)));
    while i < snapshot.len()
        invariant
            all == snapshot@,
            i <= all.len(),
            entries.deep_view() == head + copied_entries(all.take(i as int)),
        decreases all.len() - i,
    {
        assert(all.take(i + 1).drop_last() =~= all.take(i as int));
        let copied = &snapshot[i];
        push_entry(
            &mut entries,
            clipboard_preview(copied.text.as_str()),
            Some(copied.source.clone()),
            PaletteAction::CopyClipboardEntry(copied.text.clone()),
        );
        push_plain(
            &mut entries,
            "  ↳ Send to pane…",
            PaletteAction::OpenSendToPaneWithText(copied.text.clone()),
        );
        assert(entries.deep_view() =~= head + copied_entries(all.take(i + 1)));
        i += 1;
    }
    assert(all.take(i as int) =~= all);
    entries
}

/// The text to send: the recent output where it is asked for and could be read, else the
/// selection, with the clipboard to fall back on.
pub fn capture_send_source(
    last_output: bool,
    recent_output: Option<String>,
    selection: Option<String>,
) -> (r: Option<SendPayloadSource>)
    ensures
        r.deep_view() == if last_output {
            match recent_output.deep_view() {
                Some(text) => Some(SourceView::LastOutput(text)),
                None => None,
            }
        } else {
            Some(SourceView::SelectionOrClipboard { selection: selection.deep_view() })
        },
{
    if last_output {
        match recent_output {
            Some(text) => Some(SendPayloadSource::LastOutput(text)),
            None => None,
        }
    } else {
        Some(SendPayloadSource::SelectionOrClipboard { selection })
    }
}

/// What the user is told where there is nothing to send: the captured text was empty, or
/// there was none and the clipboard was empty too.
pub fn nothing_to_send(captured: bool) -> (r: &'static str)
    ensures
        r@ == if captured {
            "Nothing to send: the source text was empty."@
        } else {
            "Nothing to send: no selection or clipboard text."@
        },
{
    if captured {
        "Nothing to send: the source text was empty."
    } else {
        "Nothing to send: no selection or clipboard text."
    }
}

/// What is shown of a copied text is short.
pub proof fn law_previews_are_short(text: Seq<char>)
    ensures
        preview(text).len() <= PREVIEW_CHARS + 1,
{
    reveal_strlit("(whitespace)");
}

/// What is sent is the text that was captured, and the user is told what it is; where only
/// the clipboard is left, nothing was captured.
pub proof fn law_what_is_sent(text: Seq<char>)
    ensures
        captured_text(Some(SourceView::LastOutput(text))) == Some(text),
        captured_text(Some(SourceView::LastMessage(text))) == Some(text),
        captured_text(Some(SourceView::SelectionOrClipboard { selection: Some(text) })) == Some(
            text,
        ),
        captured_text(Some(SourceView::SelectionOrClipboard { selection: None })) is None,
        captured_text(None) is None,
        source_label(Some(SourceView::LastOutput(text))) == "Sending: recent output"@,
        source_label(Some(SourceView::LastMessage(text))) == "Sending: last agent message"@,
        source_label(Some(SourceView::SelectionOrClipboard { selection: Some(text) }))
            == "Sending: current selection"@,
        source_label(Some(SourceView::SelectionOrClipboard { selection: None }))
            == "Sending: clipboard text"@,
        source_label(None) == "Sending: current selection or clipboard"@,
        activity_word(AgentActivityState::Idle) == "idle"@,
        activity_word(AgentActivityState::Running) == "running"@,
        activity_word(AgentActivityState::WaitingInput) == "waiting-input"@,
        activity_word(AgentActivityState::Errored) == "errored"@,
        activity_word(AgentActivityState::Done) == "done"@,
{
}

/// The agent of a pane is the one that is known by its tab and its id; a pane without one is
/// a shell.
pub proof fn law_agents_of_panes(
    labels: Seq<PaneAgentLabel>,
    tab_id: u32,
    leaf: PaneLeaf,
    i: int,
)
    ensures
        0 <= i < labels.len() && labels[i].tab_id == tab_id && labels[i].pane_id == leaf.pane_id && (
        forall|j: int|
            0 <= j < i ==> (#[trigger] labels[j]).tab_id != tab_id || labels[j].pane_id
                != leaf.pane_id) ==> agent_name(labels, tab_id, leaf.pane_id) == labels[i].label@,
        (forall|j: int|
            0 <= j < labels.len() ==> (#[trigger] labels[j]).tab_id != tab_id || labels[j].pane_id
                != leaf.pane_id) ==> agent_name(labels, tab_id, leaf.pane_id) == "shell"@,
    decreases labels.len(),
{
    if labels.len() > 0 {
        let rest = labels.skip(1);
        law_agents_of_panes(rest, tab_id, leaf, i - 1);
        if 0 < i < labels.len() && (forall|j: int|
            0 <= j < i ==> (#[trigger] labels[j]).tab_id != tab_id || labels[j].pane_id
                != leaf.pane_id) {
            assert(labels[0].tab_id != tab_id || labels[0].pane_id != leaf.pane_id);
            assert(rest[i - 1] == labels[i]);
            assert forall|j: int| 0 <= j < i - 1 implies (#[trigger] rest[j]).tab_id != tab_id
                || rest[j].pane_id != leaf.pane_id by {
                assert(rest[j] == labels[j + 1]);
            }
        }
        if forall|j: int|
            0 <= j < labels.len() ==> (#[trigger] labels[j]).tab_id != tab_id || labels[j].pane_id
                != leaf.pane_id {
            assert(labels[0].tab_id != tab_id || labels[0].pane_id != leaf.pane_id);
            assert forall|j: int| 0 <= j < rest.len() implies (#[trigger] rest[j]).tab_id != tab_id
                || rest[j].pane_id != leaf.pane_id by {
                assert(rest[j] == labels[j + 1]);
            }
        }
    }
}

/// What a pane does is what its agent reports; without a report a shell that runs is idle, and
/// of one that does not run nothing is said.
pub proof fn law_activities_of_panes(
    activities: Seq<PaneActivity>,
    tab_id: u32,
    leaf: PaneLeaf,
    i: int,
)
    ensures
        0 <= i < activities.len() && activities[i].tab_id == tab_id && activities[i].pane_id
            == leaf.pane_id && (forall|j: int|
            0 <= j < i ==> (#[trigger] activities[j]).tab_id != tab_id || activities[j].pane_id
                != leaf.pane_id) ==> pane_word(activities, tab_id, leaf) == Some(
            activity_word(activities[i].state),
        ),
        (forall|j: int|
            0 <= j < activities.len() ==> (#[trigger] activities[j]).tab_id != tab_id
                || activities[j].pane_id != leaf.pane_id) ==> pane_word(activities, tab_id, leaf)
            == if leaf.shell_pid is Some {
            Some("idle"@)
        } else {
            None
        },
    decreases activities.len(),
{
    if activities.len() > 0 {
        let rest = activities.skip(1);
        law_activities_of_panes(rest, tab_id, leaf, i - 1);
        if 0 < i < activities.len() && (forall|j: int|
            0 <= j < i ==> (#[trigger] activities[j]).tab_id != tab_id || activities[j].pane_id
                != leaf.pane_id) {
            assert(activities[0].tab_id != tab_id || activities[0].pane_id != leaf.pane_id);
            assert(rest[i - 1] == activities[i]);
            assert forall|j: int| 0 <= j < i - 1 implies (#[trigger] rest[j]).tab_id != tab_id
                || rest[j].pane_id != leaf.pane_id by {
                assert(rest[j] == activities[j + 1]);
            }
        }
        if forall|j: int|
            0 <= j < activities.len() ==> (#[trigger] activities[j]).tab_id != tab_id
                || activities[j].pane_id != leaf.pane_id {
            assert(activities[0].tab_id != tab_id || activities[0].pane_id != leaf.pane_id);
            assert forall|j: int| 0 <= j < rest.len() implies (#[trigger] rest[j]).tab_id != tab_id
                || rest[j].pane_id != leaf.pane_id by {
                assert(rest[j] == activities[j + 1]);
            }
        }
    }
}

/// Text can be sent to every pane of the workspace with the focus, in the order of its tabs
/// and panes, and to no other.
pub proof fn law_panes_that_text_is_sent_to(
    state: AppState,
    tabs: Seq<Tab>,
    tab: Tab,
    agents: Seq<PaneAgentLabel>,
    activities: Seq<PaneActivity>,
    i: int,
)
    ensures
        state.active_workspace_value() is None ==> send_targets(state, agents, activities) == Seq::<
            SendTargetView,
        >::empty(),
        state.active_workspace_value() matches Some(ws) ==> send_targets(state, agents, activities)
            == tabs_targets(ws.tabs@, agents, activities),
        tabs_targets(Seq::empty(), agents, activities) == Seq::<SendTargetView>::empty(),
        tabs_targets(tabs.push(tab), agents, activities) == tabs_targets(tabs, agents, activities)
            + tab_targets(tab, agents, activities),
        tab_targets(tab, agents, activities).len() == tab.panes.live().len(),
        0 <= i < tab.panes.live().len() ==> {
            let leaf = tab.panes.live()[i];
            let target = tab_targets(tab, agents, activities)[i];
            let head = agent_name(agents, tab.id, leaf.pane_id) + " · pane "@ + text::decimal(
                leaf.pane_id as nat,
            );
            &&& target.tab_id == tab.id
            &&& target.pane_id == leaf.pane_id
            &&& pane_word(activities, tab.id, leaf) is None ==> target.label == head
            &&& pane_word(activities, tab.id, leaf) matches Some(word) ==> target.label == head
                + " · "@ + pane_word(activities, tab.id, leaf)->0
        },
{
    assert(tabs.push(tab).drop_last() =~= tabs);
}

/// Text is sent to a pane as it is, or sent and run; both can be chosen for every pane.
pub proof fn law_entries_for_sending(
    label: Seq<char>,
    targets: Seq<SendTargetView>,
    target: SendTargetView,
)
    ensures
        send_entries(label, targets)[0] == entry::back_entry(),
        send_entries(label, targets)[1] == (EntryView {
            label,
            shortcut: None,
            action: ActionView::Noop,
        }),
        send_entries(label, Seq::empty()).len() == 3,
        send_entries(label, Seq::empty())[2].label == "No panes available to send to."@,
        target_entries(Seq::empty()) == Seq::<EntryView>::empty(),
        target_entries(targets.push(target)) == target_entries(targets).push(
            EntryView {
                label: "Send → "@ + target.label,
                shortcut: None,
                action: ActionView::SendToPane {
                    tab_id: target.tab_id,
                    pane_id: target.pane_id,
                    run: false,
                },
            },
        ).push(
            EntryView {
                label: "Send + Run ⏎ "@ + target.label,
                shortcut: None,
                action: ActionView::SendToPane {
                    tab_id: target.tab_id,
                    pane_id: target.pane_id,
                    run: true,
                },
            },
        ),
        targets.len() > 0 ==> send_entries(label, targets).skip(2) == target_entries(targets),
{
    assert(targets.push(target).drop_last() =~= targets);
    if targets.len() > 0 {
        assert(send_entries(label, targets).skip(2) =~= target_entries(targets));
    }
}

/// The agents that run in the panes of a tab, in the order of the panes.
pub proof fn law_agents_that_run(
    leaves: Seq<PaneLeaf>,
    leaf: PaneLeaf,
    tab_id: u32,
    agents: Seq<((u32, u32), AgentStatus)>,
    i: int,
)
    ensures
        0 <= i < agents.len() && agents[i].0 == (tab_id, leaf.pane_id) && (forall|j: int|
            0 <= j < i ==> (#[trigger] agents[j]).0 != (tab_id, leaf.pane_id)) ==> agent_in_pane(
            agents,
            tab_id,
            leaf.pane_id,
        ) == Some(agents[i].1),
        (forall|j: int| 0 <= j < agents.len() ==> (#[trigger] agents[j]).0 != (tab_id, leaf.pane_id))
            ==> agent_in_pane(agents, tab_id, leaf.pane_id) is None,
        running_agents(Seq::empty(), tab_id, agents) == Seq::<(u32, AgentStatus)>::empty(),
        agent_in_pane(agents, tab_id, leaf.pane_id) matches Some(status) && status.running
            ==> running_agents(leaves.push(leaf), tab_id, agents) == running_agents(
            leaves,
            tab_id,
            agents,
        ).push((leaf.pane_id, agent_in_pane(agents, tab_id, leaf.pane_id)->0)),
        agent_in_pane(agents, tab_id, leaf.pane_id) is None || !agent_in_pane(
            agents,
            tab_id,
            leaf.pane_id,
        )->0.running ==> running_agents(leaves.push(leaf), tab_id, agents) == running_agents(
            leaves,
            tab_id,
            agents,
        ),
    decreases agents.len(),
{
    assert(leaves.push(leaf).drop_last() =~= leaves);
    if agents.len() > 0 {
        let rest = agents.skip(1);
        law_agents_that_run(leaves, leaf, tab_id, rest, i - 1);
        if 0 < i < agents.len() && (forall|j: int|
            0 <= j < i ==> (#[trigger] agents[j]).0 != (tab_id, leaf.pane_id)) {
            assert(agents[0].0 != (tab_id, leaf.pane_id));
            assert(rest[i - 1] == agents[i]);
            assert forall|j: int| 0 <= j < i - 1 implies (#[trigger] rest[j]).0 != (
                tab_id,
                leaf.pane_id,
            ) by {
                assert(rest[j] == agents[j + 1]);
            }
        }
        if forall|j: int|
            0 <= j < agents.len() ==> (#[trigger] agents[j]).0 != (tab_id, leaf.pane_id) {
            assert(agents[0].0 != (tab_id, leaf.pane_id));
            assert forall|j: int| 0 <= j < rest.len() implies (#[trigger] rest[j]).0 != (
                tab_id,
                leaf.pane_id,
            ) by {
                assert(rest[j] == agents[j + 1]);
            }
        }
    }
}

/// A text is read line by line: a line ends at a line break, with or without a carriage
/// return before it, and nothing follows the last break.
pub proof fn law_lines_of_texts(text: Seq<char>, line: Seq<char>)
    requires
        !line.contains('\n'),
    ensures
        lines_of(Seq::empty()) == Seq::<Seq<char>>::empty(),
        line.len() > 0 ==> lines_of(line) == seq![line],
        line.len() > 0 && line.last() != '\r' ==> lines_of(line.push('\n')) == seq![line],
        line.len() > 0 && line.last() != '\r' ==> lines_of(line.push('\r').push('\n')) == seq![
            line,
        ],
        line.len() > 0 ==> lines_of(text.push('\n') + line) == lines_of(text.push('\n')).push(line),
        lines_of(seq!['\n']) == seq![Seq::<char>::empty()],
{
    let empty = Seq::<char>::empty();
    assert(text::split_on(empty, '\n') =~= seq![empty]);
    assert(seq![empty].drop_last() =~= Seq::<Seq<char>>::empty());
    assert(lines_of(empty) =~= Seq::<Seq<char>>::empty());
    crate::paths::lemma_one_piece_of(line, '\n');
    assert(seq![line].drop_last() =~= Seq::<Seq<char>>::empty());
    if line.len() > 0 {
        assert(lines_of(line) =~= seq![line]);
        let broken = line.push('\n');
        crate::paths::lemma_split_behind(line, empty, '\n');
        assert(line + seq!['\n'] + empty =~= broken);
        assert(seq![line].push(empty).drop_last() =~= seq![line]);
        if line.last() != '\r' {
            assert(lines_of(broken) =~= seq![line]);
            let returned = line.push('\r');
            assert(!returned.contains('\n')) by {
                if returned.contains('\n') {
                    let i = choose|i: int| 0 <= i < returned.len() && returned[i] == '\n';
                    assert(line[i] == '\n');
                }
            }
            crate::paths::lemma_one_piece_of(returned, '\n');
            crate::paths::lemma_split_behind(returned, empty, '\n');
            assert(returned + seq!['\n'] + empty =~= returned.push('\n'));
            assert(seq![returned].push(empty).drop_last() =~= seq![returned]);
            assert(returned.drop_last() =~= line);
            assert(lines_of(returned.push('\n')) =~= seq![line]);
        }
        crate::paths::lemma_split_behind(text, empty, '\n');
        crate::paths::lemma_split_behind(text, line, '\n');
        assert(text + seq!['\n'] + empty =~= text.push('\n'));
        assert(text + seq!['\n'] + line =~= text.push('\n') + line);
        let pieces = text::split_on(text, '\n');
        assert(pieces.push(empty).drop_last() =~= pieces);
        assert(pieces.push(line).drop_last() =~= pieces);
    }
    crate::paths::lemma_split_behind(empty, empty, '\n');
    assert(empty + seq!['\n'] + empty =~= seq!['\n']);
    assert(seq![empty].push(empty).drop_last() =~= seq![empty]);
    assert(lines_of(seq!['\n']) =~= seq![empty]);
}

/// A short text is shown as it is, a long line is cut after its first two hundred and forty
/// characters, and a text of white space is named as such.
pub proof fn law_what_previews_show(line: Seq<char>, blank: Seq<char>)
    requires
        !line.contains('\n'),
        line.len() > 0,
        !text::is_space(line[0]),
        forall|i: int| 0 <= i < blank.len() ==> text::is_space(#[trigger] blank[i]),
    ensures
        line.len() <= 240 ==> preview(line) == line,
        line.len() > 240 ==> preview(line) == line.take(240).push('…'),
        preview(blank) == "(whitespace)"@,
        PREVIEW_LINES == 3,
        PREVIEW_CHARS == 240,
{
    law_lines_of_texts(line, line);
    text::law_joining(Seq::empty(), line, "\n"@);
    assert(!is_blank(line)) by {
        assert(!text::is_space(line[0]));
    }
    assert(is_blank(blank));
}

/// Of a text with more than three lines the first three are shown, with a mark for the rest.
pub proof fn law_previews_of_long_texts(text: Seq<char>)
    requires
        lines_of(text).len() > 3,
        !is_blank(text),
        lines_of(text)[0].len() + lines_of(text)[1].len() + lines_of(text)[2].len() <= 238,
    ensures
        ({
            let lines = lines_of(text);
            preview(text) == (lines[0] + "\n"@ + lines[1] + "\n"@ + lines[2]).push('…')
        }),
{
    reveal_strlit("\n");
    let lines = lines_of(text);
    let first = seq![lines[0]];
    let second = first.push(lines[1]);
    assert(lines.take(3) =~= second.push(lines[2]));
    text::law_joining(Seq::empty(), lines[0], "\n"@);
    text::law_joining(first, lines[1], "\n"@);
    text::law_joining(second, lines[2], "\n"@);
}

/// Every copied text can be copied again and sent, in the order in which they are kept.
pub proof fn law_entries_of_copied_texts(copied: Seq<ClipboardEntry>, last: ClipboardEntry)
    ensures
        history_entries(copied)[0] == entry::back_entry(),
        history_entries(Seq::empty())[1].label == "Clipboard history is empty."@,
        history_entries(Seq::empty())[1].action is Noop,
        copied.len() > 0 ==> history_entries(copied).skip(1) == copied_entries(copied),
        copied_entries(copied.push(last)) == copied_entries(copied).push(
            EntryView {
                label: preview(last.text@),
                shortcut: Some(last.source@),
                action: ActionView::CopyClipboardEntry(last.text@),
            },
        ).push(
            EntryView {
                label: "  ↳ Send to pane…"@,
                shortcut: None,
                action: ActionView::OpenSendToPaneWithText(last.text@),
            },
        ),
{
    assert(copied.push(last).drop_last() =~= copied);
    if copied.len() > 0 {
        assert(history_entries(copied).skip(1) =~= copied_entries(copied));
    }
}

} // verus!
