//! The tmux sessions that the palette offers to attach.

use vstd::prelude::*;
use vstd::string::*;
use crate::dashboard;
use crate::dashboard::{DashboardSession, DetachedSession, SessionStatus};
use crate::pane::PaneLeaf;
use crate::text;
use crate::text::{copy_optional_text, same_text, trimmed_non_empty};
use crate::tmux::{TmuxTarget, TmuxTargetView};
use crate::workspace;
use crate::workspace::{AppState, Tab};

verus! {

/// What choosing a session does.
#[derive(Clone, Copy, Debug, PartialEq, Eq, Structural)]
pub enum AttachCandidateKind {
    /// A tab of this program shows the session: the tab gets the focus.
    AttachedHere { tab_id: u32 },
    /// No tab shows the session: it is attached in a new one.
    Attach,
}

/// A session that the palette offers. The session's name and its server together tell it
/// from others.
#[derive(Clone, Debug, PartialEq, Eq)]
pub struct AttachCandidate {
    pub session_name: String,
    pub target: TmuxTarget,
    /// The host as it is shown.
    pub host: String,
    /// Whether some client is attached to the session.
    pub attached: bool,
    /// The command that the session runs, where it is known.
    pub command: Option<String>,
    pub kind: AttachCandidateKind,
}

/// A tab with the sessions that its panes show.
pub type LiveTabBacking = (u32, Vec<(String, TmuxTarget)>);

/// The mathematical value of an [`AttachCandidate`].
pub struct CandidateView {
    pub session_name: Seq<char>,
    pub target: TmuxTargetView,
    pub host: Seq<char>,
    pub attached: bool,
    pub command: Option<Seq<char>>,
    pub kind: AttachCandidateKind,
}

impl DeepView for AttachCandidate {
    type V = CandidateView;

    open spec fn deep_view(&self) -> CandidateView {
        CandidateView {
            session_name: self.session_name@,
            target: self.target.deep_view(),
            host: self.host@,
            attached: self.attached,
            command: self.command.deep_view(),
            kind: self.kind,
        }
    }
}

/// What tells a session from others.
pub type Identity = (Seq<char>, TmuxTargetView);

/// A report of a session.
pub struct Report {
    pub id: Identity,
    pub attached: bool,
    pub command: Option<Seq<char>>,
}

impl CandidateView {
    /// The session of the row.
    pub open spec fn id(self) -> Identity {
        (self.session_name, self.target)
    }
}

/// The host of a server as it is shown.
pub open spec fn host_label(target: TmuxTargetView) -> Seq<char> {
    match target {
        TmuxTargetView::Local => "local"@,
        TmuxTargetView::Remote { ssh_target } => ssh_target,
    }
}

/// The host of a server as it is shown: `local`, or the SSH destination.
pub fn attach_host_label(target: &TmuxTarget) -> (r: String)
    ensures
        r@ == host_label(target.deep_view()),
{
    match target {
        TmuxTarget::Local => "local".to_owned(),
        TmuxTarget::Remote { ssh_target } => ssh_target.clone(),
    }
}

/// The first tab that shows the session.
pub open spec fn showing_tab(
    tabs: Seq<(u32, Seq<(Seq<char>, TmuxTargetView)>)>,
    id: Identity,
) -> Option<u32>
    decreases tabs.len(),
{
    if tabs.len() == 0 {
        None
    } else if tabs[0].1.contains(id) {
        Some(tabs[0].0)
    } else {
        showing_tab(tabs.skip(1), id)
    }
}

/// Whether the session is among the backings.
fn shows_session(
    backings: &Vec<(String, TmuxTarget)>,
    session_name: &str,
    target: &TmuxTarget,
) -> (r: bool)
    ensures
        r == backings.deep_view().contains((session_name@, target.deep_view())),
{
    let ghost id = (session_name@, target.deep_view());
    let mut i: usize = 0;
    while i < backings.len()
        invariant
            i <= backings.len(),
            id == (session_name@, target.deep_view()),
            forall|k: int| 0 <= k < i ==> backings.deep_view()[k] != id,
        decreases backings.len() - i,
    {
        assert(backings.deep_view()[i as int] == (
            backings[i as int].0@,
            backings[i as int].1.deep_view(),
        ));
        if same_text(backings[i].0.as_str(), session_name) && backings[i].1.same_target(target) {
            assert(backings.deep_view()[i as int] == id);
            return true;
        }
        i += 1;
    }
    false
}

/// The first tab with a pane that shows the session.
pub fn live_tab_for_identity(
    live_tabs: &[LiveTabBacking],
    session_name: &str,
    target: &TmuxTarget,
) -> (r: Option<u32>)
    ensures
        r == showing_tab(live_tabs.deep_view(), (session_name@, target.deep_view())),
{
    let ghost all = live_tabs.deep_view();
    let ghost id = (session_name@, target.deep_view());
    let mut i: usize = 0;
    assert(all.skip(0) =~= all);
    while i < live_tabs.len()
        invariant
            all == live_tabs.deep_view(),
            id == (session_name@, target.deep_view()),
            i <= all.len(),
            showing_tab(all.skip(i as int), id) == showing_tab(all, id),
        decreases all.len() - i,
    {
        assert(all.skip(i as int).skip(1) =~= all.skip(i + 1));
        assert(all[i as int] == (live_tabs[i as int].0, live_tabs[i as int].1.deep_view()));
        if shows_session(&live_tabs[i].1, session_name, target) {
            return Some(live_tabs[i].0);
        }
        i += 1;
    }
    None
}

/// Whether the row stands for the session.
pub open spec fn stands_for(row: CandidateView, id: Identity) -> bool {
    row.id() == id
}

/// The row for a session that no earlier report named.
pub open spec fn first_row(
    report: Report,
    tabs: Seq<(u32, Seq<(Seq<char>, TmuxTargetView)>)>,
) -> CandidateView {
    CandidateView {
        session_name: report.id.0,
        target: report.id.1,
        host: host_label(report.id.1),
        attached: report.attached,
        command: report.command,
        kind: match showing_tab(tabs, report.id) {
            Some(tab_id) => AttachCandidateKind::AttachedHere { tab_id },
            None => AttachCandidateKind::Attach,
        },
    }
}

/// The row with what a later report of the same session adds: a command where none was
/// known, and that a client is attached.
pub open spec fn enriched(row: CandidateView, report: Report) -> CandidateView {
    CandidateView {
        attached: row.attached || report.attached,
        command: if row.command is None {
            report.command
        } else {
            row.command
        },
        ..row
    }
}

/// The rows after one more report.
pub open spec fn with_report(
    rows: Seq<CandidateView>,
    report: Report,
    tabs: Seq<(u32, Seq<(Seq<char>, TmuxTargetView)>)>,
) -> Seq<CandidateView> {
    if exists|i: int| 0 <= i < rows.len() && stands_for(#[trigger] rows[i], report.id) {
        rows.map_values(
            |row: CandidateView|
                if row.id() == report.id {
                    enriched(row, report)
                } else {
                    row
                },
        )
    } else {
        rows.push(first_row(report, tabs))
    }
}

/// The rows for a list of reports.
pub open spec fn rows_of(
    reports: Seq<Report>,
    tabs: Seq<(u32, Seq<(Seq<char>, TmuxTargetView)>)>,
) -> Seq<CandidateView>
    decreases reports.len(),
{
    if reports.len() == 0 {
        Seq::empty()
    } else {
        with_report(rows_of(reports.drop_last(), tabs), reports.last(), tabs)
    }
}

/// What a detached session reports: no client is attached to it.
pub open spec fn detached_report(session: dashboard::DetachedSessionView) -> Report {
    Report {
        id: (session.session_name, session.target),
        attached: false,
        command: session.last_command,
    }
}

/// What a probed session reports.
pub open spec fn probed_report(session: dashboard::DashboardSessionView) -> Report {
    Report {
        id: (session.name, session.target),
        attached: (session.status == SessionStatus::Running || session.status
            == SessionStatus::Idle) && !session.is_detached,
        command: session.command,
    }
}

/// All reports: of the detached sessions first, of the probed ones after them.
pub open spec fn reports(
    detached: Seq<dashboard::DetachedSessionView>,
    probed: Seq<dashboard::DashboardSessionView>,
) -> Seq<Report> {
    detached.map_values(|s| detached_report(s)) + probed.map_values(|s| probed_report(s))
}

/// Whether no two rows stand for one session.
pub open spec fn distinct_rows(rows: Seq<CandidateView>) -> bool {
    forall|i: int, j: int| 0 <= i < j < rows.len() ==> (#[trigger] rows[i]).id() != (
    #[trigger] rows[j]).id()
}

/// One more report keeps the rows apart.
proof fn lemma_with_report_distinct(
    rows: Seq<CandidateView>,
    report: Report,
    tabs: Seq<(u32, Seq<(Seq<char>, TmuxTargetView)>)>,
)
    requires
        distinct_rows(rows),
    ensures
        distinct_rows(with_report(rows, report, tabs)),
{
    let next = with_report(rows, report, tabs);
    assert forall|i: int, j: int| 0 <= i < j < next.len() implies (#[trigger] next[i]).id() != (
    #[trigger] next[j]).id() by {
        if exists|k: int| 0 <= k < rows.len() && stands_for(#[trigger] rows[k], report.id) {
            assert(rows[i].id() != rows[j].id());
        } else {
            assert(!stands_for(rows[i], report.id));
            if j < rows.len() {
                assert(rows[i].id() != rows[j].id());
            }
        }
    }
}

/// Each session has one row, whatever number of sources report it.
pub proof fn law_one_row_per_session(
    reports: Seq<Report>,
    tabs: Seq<(u32, Seq<(Seq<char>, TmuxTargetView)>)>,
)
    ensures
        distinct_rows(rows_of(reports, tabs)),
    decreases reports.len(),
{
    if reports.len() > 0 {
        law_one_row_per_session(reports.drop_last(), tabs);
        lemma_with_report_distinct(rows_of(reports.drop_last(), tabs), reports.last(), tabs);
    }
}

/// Takes one more report into the rows.
fn add_report(
    rows: &mut Vec<AttachCandidate>,
    live_tabs: &[LiveTabBacking],
    session_name: &String,
    target: &TmuxTarget,
    attached: bool,
    command: &Option<String>,
)
    requires
        distinct_rows(old(rows).deep_view()),
    ensures
        final(rows).deep_view() == with_report(
            old(rows).deep_view(),
            (Report {
                id: (session_name@, target.deep_view()),
                attached,
                command: command.deep_view(),
            }),
            live_tabs.deep_view(),
        ),
        distinct_rows(final(rows).deep_view()),
{
    let ghost before = rows.deep_view();
    let ghost report = Report {
        id: (session_name@, target.deep_view()),
        attached,
        command: command.deep_view(),
    };
    proof {
        lemma_with_report_distinct(before, report, live_tabs.deep_view());
    }
    let mut i: usize = 0;
    while i < rows.len()
        invariant
            i <= rows.len(),
            before == rows.deep_view(),
            report.id == (session_name@, target.deep_view()),
            forall|k: int| 0 <= k < i ==> !stands_for(#[trigger] before[k], report.id),
        ensures
            i < rows.len() ==> stands_for(before[i as int], report.id),
        decreases rows.len() - i,
    {
        assert(before[i as int] == rows[i as int].deep_view());
        if same_text(rows[i].session_name.as_str(), session_name.as_str())
            && rows[i].target.same_target(target) {
            break;
        }
        i += 1;
    }
    if i < rows.len() {
        assert(before[i as int] == rows[i as int].deep_view());
        let row = AttachCandidate {
            session_name: rows[i].session_name.clone(),
            target: rows[i].target.copy_target(),
            host: rows[i].host.clone(),
            attached: rows[i].attached || attached,
            command: if rows[i].command.is_none() {
                copy_optional_text(command)
            } else {
                copy_optional_text(&rows[i].command)
            },
            kind: rows[i].kind,
        };
        rows.set(i, row);
        assert(stands_for(before[i as int], report.id));
        assert(rows.deep_view() =~= with_report(before, report, live_tabs.deep_view()));
    } else {
        let kind = match live_tab_for_identity(live_tabs, session_name.as_str(), target) {
            Some(tab_id) => AttachCandidateKind::AttachedHere { tab_id },
            None => AttachCandidateKind::Attach,
        };
        rows.push(
            AttachCandidate {
                session_name: session_name.clone(),
                target: target.copy_target(),
                host: attach_host_label(target),
                attached,
                command: copy_optional_text(command),
                kind,
            },
        );
        assert(rows.deep_view() =~= with_report(before, report, live_tabs.deep_view()));
    }
}

/// The sessions to offer: one row for each session, the detached ones first, each with
/// what all its reports say.
pub fn build_attach_candidates(
    detached: &[DetachedSession],
    dashboard_sessions: &[DashboardSession],
    live_tabs: &[LiveTabBacking],
) -> (r: Vec<AttachCandidate>)
    ensures
        r.deep_view() == rows_of(
            reports(detached.deep_view(), dashboard_sessions.deep_view()),
            live_tabs.deep_view(),
        ),
        distinct_rows(r.deep_view()),
{
    let ghost all = reports(detached.deep_view(), dashboard_sessions.deep_view());
    let mut rows: Vec<AttachCandidate> = Vec::new();
    assert(rows.deep_view() =~= rows_of(all.take(0), live_tabs.deep_view()));
    let mut i: usize = 0;
    while i < detached.len()
        invariant
            all == reports(detached.deep_view(), dashboard_sessions.deep_view()),
            i <= detached.len(),
            rows.deep_view() == rows_of(all.take(i as int), live_tabs.deep_view()),
            distinct_rows(rows.deep_view()),
        decreases detached.len() - i,
    {
        let session = &detached[i];
        assert(all.take(i + 1).drop_last() =~= all.take(i as int));
        assert(all[i as int] == detached_report(session.deep_view()));
        add_report(
            &mut rows,
            live_tabs,
            &session.session_name,
            &session.target,
            false,
            &session.last_command,
        );
        i += 1;
    }
    let mut j: usize = 0;
    while j < dashboard_sessions.len()
        invariant
            all == reports(detached.deep_view(), dashboard_sessions.deep_view()),
            j <= dashboard_sessions.len(),
            rows.deep_view() == rows_of(
                all.take(detached.len() + j),
                live_tabs.deep_view(),
            ),
            distinct_rows(rows.deep_view()),
        decreases dashboard_sessions.len() - j,
    {
        let session = &dashboard_sessions[j];
        let attached = (session.status == SessionStatus::Running || session.status
            == SessionStatus::Idle) && !session.is_detached;
        assert(all.take(detached.len() + j + 1).drop_last() =~= all.take(detached.len() + j));
        assert(all[detached.len() + j] == probed_report(session.deep_view()));
        add_report(
            &mut rows,
            live_tabs,
            &session.name,
            &session.target,
            attached,
            &session.command,
        );
        j += 1;
    }
    assert(all.take(detached.len() + j) =~= all);
    rows
}

/// The sessions that reports name, each where it is first named.
pub open spec fn named_sessions(reports: Seq<Report>) -> Seq<Identity>
    decreases reports.len(),
{
    if reports.len() == 0 {
        Seq::empty()
    } else {
        let earlier = named_sessions(reports.drop_last());
        if earlier.contains(reports.last().id) {
            earlier
        } else {
            earlier.push(reports.last().id)
        }
    }
}

/// The reports of one session.
pub open spec fn reports_of(reports: Seq<Report>, id: Identity) -> Seq<Report> {
    reports.filter(|report: Report| report.id == id)
}

/// Whether a report says that a client is attached.
pub open spec fn any_attached(reports: Seq<Report>) -> bool {
    exists|i: int| 0 <= i < reports.len() && (#[trigger] reports[i]).attached
}

/// The first command that a report gives.
pub open spec fn first_command(reports: Seq<Report>) -> Option<Seq<char>>
    decreases reports.len(),
{
    if reports.len() == 0 {
        None
    } else {
        match first_command(reports.drop_last()) {
            Some(command) => Some(command),
            None => reports.last().command,
        }
    }
}

/// The rows stand for the sessions in the order in which they are first named, so the
/// detached ones come first. A row says that a client is attached where one of the
/// session's reports does, shows the first command that they give, and leads to the tab
/// that shows the session, if one does.
pub proof fn law_rows_sum_up_the_reports(
    reports: Seq<Report>,
    tabs: Seq<(u32, Seq<(Seq<char>, TmuxTargetView)>)>,
)
    ensures
        rows_of(reports, tabs).map_values(|row: CandidateView| row.id()) == named_sessions(reports),
        forall|i: int|
            0 <= i < rows_of(reports, tabs).len() ==> {
                let row = #[trigger] rows_of(reports, tabs)[i];
                let own = reports_of(reports, row.id());
                &&& row.host == host_label(row.target)
                &&& row.attached == any_attached(own)
                &&& row.command == first_command(own)
                &&& row.kind == match showing_tab(tabs, row.id()) {
                    Some(tab_id) => AttachCandidateKind::AttachedHere { tab_id },
                    None => AttachCandidateKind::Attach,
                }
            },
    decreases reports.len(),
{
    let rows = rows_of(reports, tabs);
    if reports.len() == 0 {
        assert(rows.map_values(|row: CandidateView| row.id()) =~= named_sessions(reports));
    } else {
        let less = reports.drop_last();
        let last = reports.last();
        let earlier = rows_of(less, tabs);
        law_rows_sum_up_the_reports(less, tabs);
        let ids = earlier.map_values(|row: CandidateView| row.id());
        assert(ids == named_sessions(less));
        if exists|k: int| 0 <= k < earlier.len() && stands_for(#[trigger] earlier[k], last.id) {
            let k = choose|k: int|
                0 <= k < earlier.len() && stands_for(#[trigger] earlier[k], last.id);
            assert(ids[k] == last.id);
        } else {
            assert forall|k: int| 0 <= k < ids.len() implies ids[k] != last.id by {
                assert(!stands_for(earlier[k], last.id));
            }
        }
        assert(rows.map_values(|row: CandidateView| row.id()) =~= named_sessions(reports));
        assert forall|i: int| 0 <= i < rows.len() implies {
            let row = #[trigger] rows[i];
            let own = reports_of(reports, row.id());
            &&& row.host == host_label(row.target)
            &&& row.attached == any_attached(own)
            &&& row.command == first_command(own)
            &&& row.kind == match showing_tab(tabs, row.id()) {
                Some(tab_id) => AttachCandidateKind::AttachedHere { tab_id },
                None => AttachCandidateKind::Attach,
            }
        } by {
            let id = rows[i].id();
            let own = reports_of(reports, id);
            let before = reports_of(less, id);
            lemma_reports_of_step(reports, id);
            if i < earlier.len() {
                assert(earlier[i].id() == id);
                if last.id == id {
                    assert(own.drop_last() =~= before);
                    if before.len() > 0 && any_attached(before) {
                        let w = choose|w: int| 0 <= w < before.len() && (#[trigger] before[w]).attached;
                        assert(own[w].attached);
                    }
                    if last.attached {
                        assert(own[own.len() - 1].attached);
                    }
                    if any_attached(own) {
                        let w = choose|w: int| 0 <= w < own.len() && (#[trigger] own[w]).attached;
                        if w < before.len() {
                            assert(before[w].attached);
                        }
                    }
                }
            } else {
                lemma_unnamed_has_no_reports(less, id);
                assert(own =~= seq![last]);
                assert(own.drop_last() =~= Seq::<Report>::empty());
                assert(first_command(own.drop_last()) is None);
                if last.attached {
                    assert(own[0].attached);
                }
            }
        }
    }
}

/// One more report is appended to those of its session.
proof fn lemma_reports_of_step(reports: Seq<Report>, id: Identity)
    requires
        reports.len() > 0,
    ensures
        reports_of(reports, id) == if reports.last().id == id {
            reports_of(reports.drop_last(), id).push(reports.last())
        } else {
            reports_of(reports.drop_last(), id)
        },
{
    reveal(Seq::filter);
}

/// A session that no report names has no reports.
proof fn lemma_unnamed_has_no_reports(reports: Seq<Report>, id: Identity)
    requires
        !named_sessions(reports).contains(id),
    ensures
        reports_of(reports, id).len() == 0,
    decreases reports.len(),
{
    reveal(Seq::filter);
    if reports.len() > 0 {
        let earlier = named_sessions(reports.drop_last());
        if earlier.contains(id) {
            let k = choose|k: int| 0 <= k < earlier.len() && earlier[k] == id;
            assert(named_sessions(reports)[k] == id);
        }
        if reports.last().id == id && !earlier.contains(id) {
            assert(named_sessions(reports)[earlier.len() as int] == id);
        }
        lemma_unnamed_has_no_reports(reports.drop_last(), id);
    }
}

/// The row's text: host, session, what choosing it finds, and the command.
pub open spec fn candidate_label(row: CandidateView) -> Seq<char> {
    let state = if row.kind is AttachedHere {
        "open here"@
    } else if row.attached {
        "attached"@
    } else {
        "detached"@
    };
    let head = row.host + " · "@ + row.session_name + "  ["@ + state + "]"@;
    match row.command {
        Some(command) => match text::filled(command) {
            Some(shown) => head + "  — "@ + shown,
            None => head,
        },
        None => head,
    }
}

/// The text of a row: `<host> · <session>  [<state>]  — <command>`, without the last part
/// where no command is known.
pub fn attach_candidate_label(candidate: &AttachCandidate) -> (r: String)
    ensures
        r@ == candidate_label(candidate.deep_view()),
{
    let state = match candidate.kind {
        AttachCandidateKind::AttachedHere { .. } => "open here",
        AttachCandidateKind::Attach => {
            if candidate.attached {
                "attached"
            } else {
                "detached"
            }
        },
    };
    let mut label = candidate.host.clone();
    label.append(" · ");
    label.append(candidate.session_name.as_str());
    label.append("  [");
    label.append(state);
    label.append("]");
    if let Some(command) = &candidate.command {
        if let Some(shown) = trimmed_non_empty(command.as_str()) {
            label.append("  — ");
            label.append(shown.as_str());
        }
    }
    label
}

/// The sessions that panes show.
pub open spec fn leaf_backings(leaves: Seq<PaneLeaf>) -> Seq<Identity>
    decreases leaves.len(),
{
    if leaves.len() == 0 {
        Seq::empty()
    } else {
        let before = leaf_backings(leaves.drop_last());
        match leaves.last().tmux_backing {
            Some(backing) => before.push((backing.session_name@, backing.target.deep_view())),
            None => before,
        }
    }
}

/// The tabs whose panes show sessions, with the sessions.
pub open spec fn live_backings(tabs: Seq<Tab>) -> Seq<(u32, Seq<(Seq<char>, TmuxTargetView)>)>
    decreases tabs.len(),
{
    if tabs.len() == 0 {
        Seq::empty()
    } else {
        let before = live_backings(tabs.drop_last());
        let shown = leaf_backings(tabs.last().panes.live());
        if shown.len() == 0 {
            before
        } else {
            before.push((tabs.last().id, shown))
        }
    }
}

/// The sessions that the panes of a tab show.
fn backings_of_tab(tab: &Tab) -> (r: Vec<(String, TmuxTarget)>)
    ensures
        r.deep_view() == leaf_backings(tab.panes.live()),
{
    let leaves = tab.panes.leaves();
    let ghost all = tab.panes.live();
    let mut r: Vec<(String, TmuxTarget)> = Vec::new();
    let mut i: usize = 0;
    assert(r.deep_view() =~= leaf_backings(all.take(0)));
    while i < leaves.len()
        invariant
            leaves@.len() == all.len(),
            forall|k: int| 0 <= k < leaves@.len() ==> *(#[trigger] leaves@[k]) == all[k],
            i <= leaves.len(),
            r.deep_view() == leaf_backings(all.take(i as int)),
        decreases leaves.len() - i,
    {
        assert(all.take(i + 1).drop_last() =~= all.take(i as int));
        assert(*leaves@[i as int] == all[i as int]);
        if let Some(backing) = &leaves[i].tmux_backing {
            let ghost before = r.deep_view();
            r.push((backing.session_name.clone(), backing.target.copy_target()));
            assert(r.deep_view() =~= before.push(
                (backing.session_name@, backing.target.deep_view()),
            ));
        }
        i += 1;
    }
    assert(all.take(i as int) =~= all);
    r
}

/// The tabs whose panes show tmux sessions, with the sessions.
pub fn live_tab_backings(state: &AppState) -> (r: Vec<LiveTabBacking>)
    ensures
        r.deep_view() == live_backings(workspace::tabs_of(state.workspaces@)),
{
    let tabs = state.all_tabs();
    let ghost all = workspace::tabs_of(state.workspaces@);
    let mut r: Vec<LiveTabBacking> = Vec::new();
    let mut i: usize = 0;
    assert(r.deep_view() =~= live_backings(all.take(0)));
    while i < tabs.len()
        invariant
            tabs@.len() == all.len(),
            forall|k: int| 0 <= k < tabs@.len() ==> *(#[trigger] tabs@[k]) == all[k],
            i <= tabs.len(),
            r.deep_view() == live_backings(all.take(i as int)),
        decreases tabs.len() - i,
    {
        assert(all.take(i + 1).drop_last() =~= all.take(i as int));
        assert(*tabs@[i as int] == all[i as int]);
        let shown = backings_of_tab(tabs[i]);
        if shown.len() > 0 {
            let ghost before = r.deep_view();
            let ghost view = shown.deep_view();
            r.push((tabs[i].id, shown));
            assert(r.deep_view() =~= before.push((all[i as int].id, view)));
        }
        i += 1;
    }
    assert(all.take(i as int) =~= all);
    r
}

/// A session is shown by the first tab that has it in a pane; one that no tab shows is not.
pub proof fn law_tabs_that_show_sessions(
    tabs: Seq<(u32, Seq<(Seq<char>, TmuxTargetView)>)>,
    id: Identity,
    i: int,
)
    ensures
        0 <= i < tabs.len() && tabs[i].1.contains(id) && (forall|j: int|
            0 <= j < i ==> !(#[trigger] tabs[j]).1.contains(id)) ==> showing_tab(tabs, id) == Some(
            tabs[i].0,
        ),
        (forall|j: int| 0 <= j < tabs.len() ==> !(#[trigger] tabs[j]).1.contains(id))
            ==> showing_tab(tabs, id) is None,
    decreases tabs.len(),
{
    if tabs.len() > 0 {
        let rest = tabs.skip(1);
        law_tabs_that_show_sessions(rest, id, i - 1);
        if 0 < i < tabs.len() && tabs[i].1.contains(id) && (forall|j: int|
            0 <= j < i ==> !(#[trigger] tabs[j]).1.contains(id)) {
            assert(!tabs[0].1.contains(id));
            assert(rest[i - 1] == tabs[i]);
            assert forall|j: int| 0 <= j < i - 1 implies !(#[trigger] rest[j]).1.contains(id) by {
                assert(rest[j] == tabs[j + 1]);
            }
        }
        if forall|j: int| 0 <= j < tabs.len() ==> !(#[trigger] tabs[j]).1.contains(id) {
            assert(!tabs[0].1.contains(id));
            assert forall|j: int| 0 <= j < rest.len() implies !(#[trigger] rest[j]).1.contains(
                id,
            ) by {
                assert(rest[j] == tabs[j + 1]);
            }
        }
    }
}

/// A session that was not named before gets a row of its own, behind the others; one that a
/// tab shows leads to the tab, and is not attached a second time.
pub proof fn law_new_sessions_get_a_row(
    rows: Seq<CandidateView>,
    report: Report,
    tabs: Seq<(u32, Seq<(Seq<char>, TmuxTargetView)>)>,
)
    requires
        forall|i: int| 0 <= i < rows.len() ==> (#[trigger] rows[i]).session_name != report.id.0
            || rows[i].target != report.id.1,
    ensures
        ({
            let after = with_report(rows, report, tabs);
            &&& after.len() == rows.len() + 1
            &&& after.drop_last() == rows
            &&& after.last().session_name == report.id.0
            &&& after.last().target == report.id.1
            &&& after.last().attached == report.attached
            &&& after.last().command == report.command
            &&& report.id.1 is Local ==> after.last().host == "local"@
            &&& report.id.1 matches TmuxTargetView::Remote { ssh_target } ==> after.last().host
                == report.id.1->Remote_ssh_target
            &&& showing_tab(tabs, report.id) matches Some(tab_id) ==> after.last().kind == (
            AttachCandidateKind::AttachedHere { tab_id: showing_tab(tabs, report.id)->0 })
            &&& showing_tab(tabs, report.id) is None ==> after.last().kind
                == AttachCandidateKind::Attach
        }),
{
    assert forall|i: int| 0 <= i < rows.len() implies !stands_for(#[trigger] rows[i], report.id) by {
        assert(rows[i].session_name != report.id.0 || rows[i].target != report.id.1);
    }
    assert(rows.push(first_row(report, tabs)).drop_last() =~= rows);
}

/// A session that is named again keeps its row, which learns what it did not say: that the
/// session is attached, and its command where none was known.
pub proof fn law_named_sessions_keep_their_row(
    rows: Seq<CandidateView>,
    report: Report,
    tabs: Seq<(u32, Seq<(Seq<char>, TmuxTargetView)>)>,
    i: int,
    j: int,
)
    requires
        0 <= i < rows.len(),
        rows[i].session_name == report.id.0,
        rows[i].target == report.id.1,
        0 <= j < rows.len(),
    ensures
        ({
            let after = with_report(rows, report, tabs);
            &&& after.len() == rows.len()
            &&& after[i].session_name == rows[i].session_name && after[i].target == rows[i].target
                && after[i].kind == rows[i].kind && after[i].host == rows[i].host
            &&& after[i].attached == (rows[i].attached || report.attached)
            &&& rows[i].command is Some ==> after[i].command == rows[i].command
            &&& rows[i].command is None ==> after[i].command == report.command
            &&& rows[j].session_name != report.id.0 || rows[j].target != report.id.1 ==> after[j]
                == rows[j]
        }),
{
    assert(stands_for(rows[i], report.id));
}

/// Sessions that were detached here come first; of those that a probe found, the ones that
/// run or are idle count as attached, unless they were detached.
pub proof fn law_reports_of_sessions(
    detached: Seq<dashboard::DetachedSessionView>,
    probed: Seq<dashboard::DashboardSessionView>,
    d: int,
    p: int,
)
    ensures
        reports(detached, probed).len() == detached.len() + probed.len(),
        0 <= d < detached.len() ==> {
            let report = reports(detached, probed)[d];
            &&& report.id == (detached[d].session_name, detached[d].target)
            &&& !report.attached
            &&& report.command == detached[d].last_command
        },
        0 <= p < probed.len() ==> {
            let report = reports(detached, probed)[detached.len() + p];
            &&& report.id == (probed[p].name, probed[p].target)
            &&& report.command == probed[p].command
            &&& probed[p].is_detached ==> !report.attached
            &&& !probed[p].is_detached && (probed[p].status == SessionStatus::Running
                || probed[p].status == SessionStatus::Idle) ==> report.attached
            &&& probed[p].status != SessionStatus::Running && probed[p].status
                != SessionStatus::Idle ==> !report.attached
        },
{
}

/// A row shows the host, the session, how it is attached, and its command where it has one.
pub proof fn law_labels_of_sessions(row: CandidateView, command: Seq<char>)
    ensures
        row.command is None && (row.kind is AttachedHere) ==> candidate_label(row) == row.host
            + " · "@ + row.session_name + "  ["@ + "open here"@ + "]"@,
        row.command is None && !(row.kind is AttachedHere) && row.attached ==> candidate_label(row)
            == row.host + " · "@ + row.session_name + "  ["@ + "attached"@ + "]"@,
        row.command is None && !(row.kind is AttachedHere) && !row.attached ==> candidate_label(
            row,
        ) == row.host + " · "@ + row.session_name + "  ["@ + "detached"@ + "]"@,
        row.command == Some(command) && text::trimmed(command).len() > 0 ==> candidate_label(row)
            == candidate_label(CandidateView { command: None, ..row }) + "  — "@ + text::trimmed(
            command,
        ),
        row.command == Some(command) && text::trimmed(command).len() == 0 ==> candidate_label(row)
            == candidate_label(CandidateView { command: None, ..row }),
{
}

/// The sessions of a tab are those of its panes that run in tmux, in their order; tabs without
/// any are left out.
pub proof fn law_sessions_of_tabs(
    leaves: Seq<PaneLeaf>,
    leaf: PaneLeaf,
    tabs: Seq<Tab>,
    tab: Tab,
)
    ensures
        leaf_backings(Seq::empty()) == Seq::<Identity>::empty(),
        leaf.tmux_backing is None ==> leaf_backings(leaves.push(leaf)) == leaf_backings(leaves),
        leaf.tmux_backing matches Some(backing) ==> leaf_backings(leaves.push(leaf))
            == leaf_backings(leaves).push(
            (leaf.tmux_backing->0.session_name@, leaf.tmux_backing->0.target.deep_view()),
        ),
        live_backings(Seq::empty()) == Seq::<(u32, Seq<(Seq<char>, TmuxTargetView)>)>::empty(),
        leaf_backings(tab.panes.live()).len() == 0 ==> live_backings(tabs.push(tab))
            == live_backings(tabs),
        leaf_backings(tab.panes.live()).len() > 0 ==> live_backings(tabs.push(tab))
            == live_backings(tabs).push((tab.id, leaf_backings(tab.panes.live()))),
{
    assert(leaves.push(leaf).drop_last() =~= leaves);
    assert(tabs.push(tab).drop_last() =~= tabs);
}

} // verus!
