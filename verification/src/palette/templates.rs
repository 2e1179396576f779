//! Templates of tabs and workspaces.

use vstd::prelude::*;
use vstd::string::*;
use crate::palette::entry;
use crate::palette::entry::{
    list_with_way_back, push_entry, push_plain, ActionView, EntryView, PaletteAction, PaletteEntry,
};
use crate::palette::records::TemplateKind;
use crate::pane;
use crate::pane::PaneLeaf;
use crate::text;
use crate::text::{
    chars_of, copy_optional_text, same_ignoring_ascii_case, starts_with, string_of, text_before_first,
    trim,
};
use crate::workspace::{AppState, Tab, Workspace};

verus! {

/// A tab as it is saved.
#[derive(Clone, Debug, PartialEq, Eq)]
pub struct SavedTab {
    pub name: String,
    /// The identity of the tab across restarts.
    pub work_origin: Option<String>,
    pub cwd: Option<String>,
    /// The panes of the tab, as the session file holds them.
    pub panes: Option<String>,
    /// The directory in which tasks were discovered for the tab.
    pub discovery_cwd: Option<String>,
}

/// The mathematical value of a [`SavedTab`].
pub struct SavedTabView {
    pub name: Seq<char>,
    pub work_origin: Option<Seq<char>>,
    pub cwd: Option<Seq<char>>,
    pub panes: Option<Seq<char>>,
    pub discovery_cwd: Option<Seq<char>>,
}

impl DeepView for SavedTab {
    type V = SavedTabView;

    open spec fn deep_view(&self) -> SavedTabView {
        SavedTabView {
            name: self.name@,
            work_origin: self.work_origin.deep_view(),
            cwd: self.cwd.deep_view(),
            panes: self.panes.deep_view(),
            discovery_cwd: self.discovery_cwd.deep_view(),
        }
    }
}

/// A workspace as it is saved.
#[derive(Clone, Debug, PartialEq, Eq)]
pub struct SavedWorkspaceTemplate {
    /// The identity of the workspace that the template was made of.
    pub work_origin: Option<String>,
    pub tabs: Vec<SavedTab>,
    pub active_tab_index: usize,
}

/// A template.
#[derive(Clone, Debug, PartialEq, Eq)]
pub enum TemplateRecord {
    Tab { name: String, tab: SavedTab },
    Workspace { name: String, workspace: SavedWorkspaceTemplate },
}

impl TemplateRecord {
    /// The template's name.
    pub open spec fn name_text(self) -> Seq<char> {
        match self {
            TemplateRecord::Tab { name, .. } => name@,
            TemplateRecord::Workspace { name, .. } => name@,
        }
    }

    /// What the template makes.
    pub open spec fn kind_value(self) -> TemplateKind {
        match self {
            TemplateRecord::Tab { .. } => TemplateKind::Tab,
            TemplateRecord::Workspace { .. } => TemplateKind::Workspace,
        }
    }

    /// The template's name.
    pub fn name(&self) -> (r: &str)
        ensures
            r@ == self.name_text(),
    {
        match self {
            TemplateRecord::Tab { name, .. } => name.as_str(),
            TemplateRecord::Workspace { name, .. } => name.as_str(),
        }
    }

    /// What the template makes.
    pub fn kind(&self) -> (r: TemplateKind)
        ensures
            r == self.kind_value(),
    {
        match self {
            TemplateRecord::Tab { .. } => TemplateKind::Tab,
            TemplateRecord::Workspace { .. } => TemplateKind::Workspace,
        }
    }
}

/// What a template makes, as a title.
pub open spec fn kind_title(kind: TemplateKind) -> Seq<char> {
    match kind {
        TemplateKind::Tab => "Tab"@,
        TemplateKind::Workspace => "Workspace"@,
    }
}

/// What a template makes, as a title.
pub fn template_kind_label(kind: TemplateKind) -> (r: &'static str)
    ensures
        r@ == kind_title(kind),
{
    match kind {
        TemplateKind::Tab => "Tab",
        TemplateKind::Workspace => "Workspace",
    }
}

/// What a template makes, within a sentence.
pub fn template_kind_label_lower(kind: TemplateKind) -> (r: &'static str)
    ensures
        r@ == match kind {
            TemplateKind::Tab => "tab"@,
            TemplateKind::Workspace => "workspace"@,
        },
{
    match kind {
        TemplateKind::Tab => "tab",
        TemplateKind::Workspace => "workspace",
    }
}

/// What the list of templates is for.
#[derive(Clone, Copy, Debug, PartialEq, Eq, Structural)]
pub enum TemplateMode {
    OpenTab,
    OpenWorkspace,
    Delete,
}

/// The entry of a template in a list, if it has one there.
pub open spec fn template_entry(mode: TemplateMode, template: TemplateRecord) -> Option<EntryView> {
    let name = template.name_text();
    let kind = template.kind_value();
    match mode {
        TemplateMode::OpenTab => if kind == TemplateKind::Tab {
            Some(entry::plain("New Tab from Template: "@ + name, ActionView::OpenTabTemplate(name)))
        } else {
            None
        },
        TemplateMode::OpenWorkspace => if kind == TemplateKind::Workspace {
            Some(
                entry::plain(
                    "New Workspace from Template: "@ + name,
                    ActionView::OpenWorkspaceTemplate(name),
                ),
            )
        } else {
            None
        },
        TemplateMode::Delete => Some(
            entry::plain(
                "Delete "@ + kind_title(kind) + " Template: "@ + name,
                ActionView::DeleteTemplate(kind, name),
            ),
        ),
    }
}

/// The entries of the templates in a list.
pub open spec fn template_rows(mode: TemplateMode, templates: Seq<TemplateRecord>) -> Seq<EntryView>
    decreases templates.len(),
{
    if templates.len() == 0 {
        Seq::empty()
    } else {
        let before = template_rows(mode, templates.drop_last());
        match template_entry(mode, templates.last()) {
            Some(entry) => before.push(entry),
            None => before,
        }
    }
}

/// The entries of a list of templates.
pub open spec fn template_entries(
    mode: TemplateMode,
    templates: Option<Result<Vec<TemplateRecord>, String>>,
) -> Seq<EntryView> {
    seq![entry::back_entry()] + match templates {
        Some(Ok(templates)) => template_rows(mode, templates@),
        Some(Err(error)) => seq![
            entry::plain(
                "⚠ Templates unavailable: "@ + error@,
                ActionView::ShowError("Could not load templates: "@ + error@),
            ),
        ],
        None => seq![entry::plain("Loading templates…"@, ActionView::Noop)],
    }
}

/// The entries of a list of templates: the way back, and one for each template that the
/// list is for; or that the templates are being read, or why they could not be.
pub fn build_template_entries(
    mode: TemplateMode,
    templates: &Option<Result<Vec<TemplateRecord>, String>>,
) -> (r: Vec<PaletteEntry>)
    ensures
        r.deep_view() == template_entries(mode, *templates),
{
    let mut entries = list_with_way_back();
    let ghost head = entries.deep_view();
    match templates {
        Some(Ok(templates)) => {
            let ghost all = templates@;
            let mut i: usize = 0;
            assert(entries.deep_view() =~= head + template_rows(mode, all.take(0)));
            while i < templates.len()
                invariant
                    all == templates@,
                    i <= all.len(),
                    entries.deep_view() == head + template_rows(mode, all.take(i as int)),
                decreases all.len() - i,
            {
                assert(all.take(i + 1).drop_last() =~= all.take(i as int));
                let name = templates[i].name();
                let kind = templates[i].kind();
                match mode {
                    TemplateMode::OpenTab => {
                        if kind == TemplateKind::Tab {
                            let mut label = "New Tab from Template: ".to_owned();
                            label.append(name);
                            push_entry(
                                &mut entries,
                                label,
                                None,
                                PaletteAction::OpenTabTemplate(name.to_owned()),
                            );
                        }
                    },
                    TemplateMode::OpenWorkspace => {
                        if kind == TemplateKind::Workspace {
                            let mut label = "New Workspace from Template: ".to_owned();
                            label.append(name);
                            push_entry(
                                &mut entries,
                                label,
                                None,
                                PaletteAction::OpenWorkspaceTemplate(name.to_owned()),
                            );
                        }
                    },
                    TemplateMode::Delete => {
                        let mut label = "Delete ".to_owned();
                        label.append(template_kind_label(kind));
                        label.append(" Template: ");
                        label.append(name);
                        push_entry(
                            &mut entries,
                            label,
                            None,
                            PaletteAction::DeleteTemplate(kind, name.to_owned()),
                        );
                    },
                }
                assert(entries.deep_view() =~= head + template_rows(mode, all.take(i + 1)));
                i += 1;
            }
            assert(all.take(i as int) =~= all);
        },
        Some(Err(error)) => {
            let mut label = "⚠ Templates unavailable: ".to_owned();
            label.append(error.as_str());
            let mut message = "Could not load templates: ".to_owned();
            message.append(error.as_str());
            push_entry(&mut entries, label, None, PaletteAction::ShowError(message));
        },
        None => {
            push_plain(&mut entries, "Loading templates…", PaletteAction::Noop);
        },
    }
    assert(entries.deep_view() =~= template_entries(mode, *templates));
    entries
}

/// The first template of a kind with this name, whatever the case of ASCII letters.
pub open spec fn named_template(
    templates: Seq<TemplateRecord>,
    kind: TemplateKind,
    name: Seq<char>,
) -> Option<TemplateRecord>
    decreases templates.len(),
{
    if templates.len() == 0 {
        None
    } else if templates[0].kind_value() == kind && text::ascii_lowered(templates[0].name_text())
        == text::ascii_lowered(name) {
        Some(templates[0])
    } else {
        named_template(templates.skip(1), kind, name)
    }
}

/// The template of a kind with this name, whatever the case of ASCII letters, where the
/// templates could be read.
pub fn find_template<'a>(
    templates: &'a Option<Result<Vec<TemplateRecord>, String>>,
    kind: TemplateKind,
    name: &str,
) -> (r: Option<&'a TemplateRecord>)
    ensures
        match *templates {
            Some(Ok(list)) => {
                &&& r is Some <==> named_template(list@, kind, name@) is Some
                &&& r matches Some(template) ==> named_template(list@, kind, name@) == Some(
                    *template,
                )
            },
            _ => r is None,
        },
{
    match templates {
        Some(Ok(list)) => {
            let ghost all = list@;
            let mut i: usize = 0;
            assert(all.skip(0) =~= all);
            while i < list.len()
                invariant
                    *templates == Some(Ok::<Vec<TemplateRecord>, String>(*list)),
                    all == list@,
                    i <= all.len(),
                    named_template(all.skip(i as int), kind, name@) == named_template(
                        all,
                        kind,
                        name@,
                    ),
                decreases all.len() - i,
            {
                assert(all.skip(i as int).skip(1) =~= all.skip(i + 1));
                if list[i].kind() == kind && same_ignoring_ascii_case(list[i].name(), name) {
                    return Some(&list[i]);
                }
                i += 1;
            }
            None
        },
        _ => None,
    }
}

/// The directory of a saved tab on this machine.
pub open spec fn local_path(
    cwd: Option<Seq<char>>,
    uri: Option<(Option<Seq<char>>, Seq<char>)>,
) -> Option<Seq<char>> {
    match cwd {
        None => None,
        Some(cwd) => {
            let dir = text::trimmed(cwd);
            if dir.len() == 0 {
                None
            } else if text::has_prefix(dir, "file://"@) {
                match uri {
                    Some((None, path)) => Some(path),
                    _ => None,
                }
            } else {
                Some(from_first_slash(dir))
            }
        },
    }
}

/// What stands at and behind the first slash; a text without one as it is.
pub open spec fn from_first_slash(s: Seq<char>) -> Seq<char> {
    let head = text::before_first(s, '/');
    if head.len() < s.len() {
        s.skip(head.len() as int)
    } else {
        s
    }
}

/// The `file` URI in a saved directory, without the white space around it: where there is
/// one, its host and path decide.
pub fn saved_cwd_uri(cwd: &Option<String>) -> (r: Option<String>)
    ensures
        r.deep_view() == match cwd.deep_view() {
            Some(cwd) => if text::has_prefix(text::trimmed(cwd), "file://"@) {
                Some(text::trimmed(cwd))
            } else {
                None
            },
            None => None,
        },
{
    match cwd {
        Some(cwd) => {
            let dir = trim(cwd.as_str());
            if starts_with(dir.as_str(), "file://") {
                Some(dir)
            } else {
                None
            }
        },
        None => None,
    }
}

/// The directory of a saved tab on this machine. `uri` is the host and the path of the
/// `file` URI that the directory was saved as; a URI with a host is on another machine.
/// From any other text, what precedes the first slash is dropped.
pub fn saved_template_cwd_to_local_path(
    cwd: &Option<String>,
    uri: &Option<(Option<String>, String)>,
) -> (r: Option<String>)
    ensures
        r.deep_view() == local_path(cwd.deep_view(), uri.deep_view()),
{
    match cwd {
        None => None,
        Some(cwd) => {
            let dir = trim(cwd.as_str());
            if dir.as_str().is_empty() {
                return None;
            }
            if starts_with(dir.as_str(), "file://") {
                return match uri {
                    Some((None, path)) => Some(path.clone()),
                    _ => None,
                };
            }
            let head = text_before_first(dir.as_str(), '/');
            let chars = chars_of(dir.as_str());
            let skipped: usize = chars_of(head.as_str()).len();
            if skipped >= chars.len() {
                return Some(dir);
            }
            let path = string_of(&chars, skipped, chars.len());
            assert(path@ =~= from_first_slash(dir@));
            Some(path)
        },
    }
}

/// How a tab of a template is opened.
#[derive(Clone, Debug, PartialEq, Eq)]
pub struct TemplateTabPlan {
    pub tab_name: String,
    pub cwd: Option<String>,
    /// The panes that the tab is opened with.
    pub panes: Option<String>,
    /// After how many milliseconds tasks are discovered for the tab.
    pub discovery_delay_ms: Option<u64>,
}

/// The mathematical value of a [`TemplateTabPlan`].
pub struct TabPlanView {
    pub tab_name: Seq<char>,
    pub cwd: Option<Seq<char>>,
    pub panes: Option<Seq<char>>,
    pub discovery_delay_ms: Option<u64>,
}

impl DeepView for TemplateTabPlan {
    type V = TabPlanView;

    open spec fn deep_view(&self) -> TabPlanView {
        TabPlanView {
            tab_name: self.tab_name@,
            cwd: self.cwd.deep_view(),
            panes: self.panes.deep_view(),
            discovery_delay_ms: self.discovery_delay_ms,
        }
    }
}

/// How the single tab of a tab template is opened.
pub fn plan_tab_template(name: &str, tab: &SavedTab) -> (r: TemplateTabPlan)
    ensures
        r.deep_view() == (TabPlanView {
            tab_name: name@,
            cwd: tab.cwd.deep_view(),
            panes: tab.panes.deep_view(),
            discovery_delay_ms: if tab.discovery_cwd is Some {
                Some(350u64)
            } else {
                None
            },
        }),
{
    TemplateTabPlan {
        tab_name: name.to_owned(),
        cwd: copy_optional_text(&tab.cwd),
        panes: copy_optional_text(&tab.panes),
        discovery_delay_ms: if tab.discovery_cwd.is_some() {
            Some(350u64)
        } else {
            None
        },
    }
}

/// How many of the tabs had tasks discovered.
pub open spec fn discovering(tabs: Seq<SavedTabView>) -> nat
    decreases tabs.len(),
{
    if tabs.len() == 0 {
        0
    } else {
        discovering(tabs.drop_last()) + if tabs.last().discovery_cwd is Some {
            1nat
        } else {
            0nat
        }
    }
}

/// How a tab of a workspace template is opened. The tabs that discover tasks do so one
/// after another.
pub open spec fn workspace_tab_plan(tabs: Seq<SavedTabView>, i: int) -> TabPlanView {
    TabPlanView {
        tab_name: if text::trimmed(tabs[i].name).len() == 0 {
            "Shell"@
        } else {
            tabs[i].name
        },
        cwd: tabs[i].cwd,
        panes: tabs[i].panes,
        discovery_delay_ms: if tabs[i].discovery_cwd is Some {
            Some((500 + 200 * discovering(tabs.take(i))) as u64)
        } else {
            None
        },
    }
}

/// How the tabs of a workspace template are opened.
pub open spec fn workspace_tab_plans(tabs: Seq<SavedTabView>) -> Seq<TabPlanView> {
    Seq::new(tabs.len(), |i: int| workspace_tab_plan(tabs, i))
}

/// How the tabs of a workspace template are opened: an unnamed tab is called `Shell`, and
/// task discovery starts half a second in, in steps of a fifth of a second.
pub fn plan_workspace_template_tabs(tabs: &Vec<SavedTab>) -> (r: Vec<TemplateTabPlan>)
    requires
        500 + 200 * tabs.len() <= u64::MAX,
    ensures
        r.deep_view() == workspace_tab_plans(tabs.deep_view()),
{
    let ghost all = tabs.deep_view();
    let mut r: Vec<TemplateTabPlan> = Vec::new();
    let mut started: u64 = 0;
    let mut i: usize = 0;
    assert(r.deep_view() =~= workspace_tab_plans(all).take(0));
    while i < tabs.len()
        invariant
            all == tabs.deep_view(),
            500 + 200 * tabs.len() <= u64::MAX,
            i <= tabs.len(),
            started <= i,
            started == discovering(all.take(i as int)),
            r.deep_view() == workspace_tab_plans(all).take(i as int),
        decreases tabs.len() - i,
    {
        assert(all.take(i + 1).drop_last() =~= all.take(i as int));
        let tab = &tabs[i];
        assert(all[i as int] == tab.deep_view());
        let blank = trim(tab.name.as_str()).as_str().is_empty();
        let delay: Option<u64> = if tab.discovery_cwd.is_some() {
            let ms: u64 = 500 + started * 200;
            started = started + 1;
            Some(ms)
        } else {
            None
        };
        let plan = TemplateTabPlan {
            tab_name: if blank {
                "Shell".to_owned()
            } else {
                tab.name.clone()
            },
            cwd: copy_optional_text(&tab.cwd),
            panes: copy_optional_text(&tab.panes),
            discovery_delay_ms: delay,
        };
        let ghost before = r.deep_view();
        assert(plan.deep_view() == workspace_tab_plan(all, i as int));
        r.push(plan);
        assert(r.deep_view() =~= before.push(workspace_tab_plan(all, i as int)));
        assert(r.deep_view() =~= workspace_tab_plans(all).take(i + 1));
        i += 1;
    }
    assert(workspace_tab_plans(all).take(i as int) =~= workspace_tab_plans(all));
    r
}

/// The tab that gets the focus: the saved one, or the last where there are fewer.
pub fn template_active_tab(active_tab_index: usize, tab_count: usize) -> (r: Option<usize>)
    ensures
        r == if tab_count == 0 {
            None
        } else if active_tab_index < tab_count {
            Some(active_tab_index)
        } else {
            Some((tab_count - 1) as usize)
        },
{
    if tab_count == 0 {
        None
    } else if active_tab_index < tab_count {
        Some(active_tab_index)
    } else {
        Some(tab_count - 1)
    }
}

/// Why a template is not opened, or the template.
pub enum TemplateChoice<'a> {
    Tab { name: &'a str, tab: &'a SavedTab },
    Workspace { name: &'a str, workspace: &'a SavedWorkspaceTemplate },
    Refused { message: String },
}

/// The tab template of this name; else what the user is told.
pub fn choose_tab_template<'a>(
    templates: &'a Option<Result<Vec<TemplateRecord>, String>>,
    name: &str,
) -> (r: TemplateChoice<'a>)
    ensures
        ({
            let found = match *templates {
                Some(Ok(list)) => named_template(list@, TemplateKind::Tab, name@),
                _ => None,
            };
            match found {
                Some(TemplateRecord::Tab { name: own, tab }) => {
                    &&& r matches TemplateChoice::Tab { name: shown, tab: saved }
                    &&& shown@ == own@
                    &&& *saved == tab
                },
                _ => {
                    &&& r matches TemplateChoice::Refused { message }
                    &&& message@ == "Tab template \""@ + name@ + "\" was not found"@
                },
            }
        }),
{
    if let Some(TemplateRecord::Tab { name: own, tab }) = find_template(
        templates,
        TemplateKind::Tab,
        name,
    ) {
        return TemplateChoice::Tab { name: own.as_str(), tab };
    }
    proof {
        if let Some(Ok(list)) = templates {
            lemma_named_template_kind(list@, TemplateKind::Tab, name@);
        }
    }
    let mut message = "Tab template \"".to_owned();
    message.append(name);
    message.append("\" was not found");
    TemplateChoice::Refused { message }
}

/// A template that was found by its kind is of that kind.
proof fn lemma_named_template_kind(
    templates: Seq<TemplateRecord>,
    kind: TemplateKind,
    name: Seq<char>,
)
    ensures
        named_template(templates, kind, name) matches Some(template) ==> template.kind_value()
            == kind,
    decreases templates.len(),
{
    if templates.len() > 0 {
        lemma_named_template_kind(templates.skip(1), kind, name);
    }
}

/// The workspace template of this name; else what the user is told. A template without
/// tabs is not opened.
pub fn choose_workspace_template<'a>(
    templates: &'a Option<Result<Vec<TemplateRecord>, String>>,
    name: &str,
) -> (r: TemplateChoice<'a>)
    ensures
        ({
            let found = match *templates {
                Some(Ok(list)) => named_template(list@, TemplateKind::Workspace, name@),
                _ => None,
            };
            match found {
                Some(TemplateRecord::Workspace { name: own, workspace }) => if workspace.tabs@.len()
                    == 0 {
                    &&& r matches TemplateChoice::Refused { message }
                    &&& message@ == "Workspace template \""@ + name@ + "\" has no tabs"@
                } else {
                    &&& r matches TemplateChoice::Workspace { name: shown, workspace: saved }
                    &&& shown@ == own@
                    &&& *saved == workspace
                },
                _ => {
                    &&& r matches TemplateChoice::Refused { message }
                    &&& message@ == "Workspace template \""@ + name@ + "\" was not found"@
                },
            }
        }),
{
    let mut message = "Workspace template \"".to_owned();
    message.append(name);
    if let Some(TemplateRecord::Workspace { name: own, workspace }) = find_template(
        templates,
        TemplateKind::Workspace,
        name,
    ) {
        if workspace.tabs.len() == 0 {
            message.append("\" has no tabs");
            return TemplateChoice::Refused { message };
        }
        return TemplateChoice::Workspace { name: own.as_str(), workspace };
    }
    proof {
        if let Some(Ok(list)) = templates {
            lemma_named_template_kind(list@, TemplateKind::Workspace, name@);
        }
    }
    message.append("\" was not found");
    TemplateChoice::Refused { message }
}

/// The pane whose directory a saved tab keeps: the one with the focus, else the first.
pub open spec fn saved_pane(tab: Tab) -> Option<PaneLeaf> {
    match pane::find_leaf(tab.panes.live(), tab.focused_pane_id) {
        Some(leaf) => Some(leaf),
        None => if tab.panes.live().len() > 0 {
            Some(tab.panes.live()[0])
        } else {
            None
        },
    }
}

/// A tab as it is saved, with these panes.
pub open spec fn saved_tab(tab: Tab, panes: Option<Seq<char>>) -> SavedTabView {
    SavedTabView {
        name: tab.name@,
        work_origin: Some(tab.work_origin@),
        cwd: match saved_pane(tab) {
            Some(leaf) => leaf.saved_dir(),
            None => None,
        },
        panes,
        discovery_cwd: tab.discovery_cwd.deep_view(),
    }
}

/// A tab as it is saved, with its identity, and with the directory of the pane that has the
/// focus, or else of the first pane. `panes` is its tree of panes in the form of the session
/// file.
pub fn snapshot_saved_tab(tab: &Tab, panes: Option<String>) -> (r: SavedTab)
    ensures
        r.deep_view() == saved_tab(*tab, panes.deep_view()),
        r.panes == panes,
{
    let cwd = match tab.panes.leaf(tab.focused_pane_id) {
        Some(leaf) => leaf.saved_cwd(),
        None => {
            let leaves = tab.panes.leaves();
            if leaves.len() > 0 {
                assert(*leaves@[0] == tab.panes.live()[0]);
                leaves[0].saved_cwd()
            } else {
                None
            }
        },
    };
    SavedTab {
        name: tab.name.clone(),
        work_origin: Some(tab.work_origin.clone()),
        cwd,
        panes,
        discovery_cwd: copy_optional_text(&tab.discovery_cwd),
    }
}

/// The position of the first tab with this id; the first tab's where there is none.
pub open spec fn tab_position(tabs: Seq<Tab>, id: u32) -> nat
    decreases tabs.len(),
{
    if tabs.len() == 0 || tabs[0].id == id {
        0
    } else {
        1 + tab_position(tabs.skip(1), id)
    }
}

/// The item at a position, where there is one.
pub open spec fn item_at(items: Seq<Seq<char>>, i: int) -> Option<Seq<char>> {
    if 0 <= i < items.len() {
        Some(items[i])
    } else {
        None
    }
}

/// The tabs as they are saved, each with the panes at its position.
pub open spec fn saved_tabs(tabs: Seq<Tab>, panes: Seq<Seq<char>>) -> Seq<SavedTabView> {
    Seq::new(tabs.len(), |i: int| saved_tab(tabs[i], item_at(panes, i)))
}

/// The tabs of a workspace as they are saved, and which of them had the focus.
pub open spec fn saved_workspace(ws: Workspace, panes: Seq<Seq<char>>) -> (
    Seq<SavedTabView>,
    nat,
) {
    let at = tab_position(ws.tabs@, ws.active_tab);
    (
        saved_tabs(ws.tabs@, panes),
        if at < ws.tabs@.len() {
            at
        } else {
            0
        },
    )
}

/// The active workspace as a template; else what the user is told. `missing` is what is
/// said where there is no active workspace, and `panes` holds the tree of panes of each of
/// its tabs, in the order of the tabs.
pub fn snapshot_workspace_template(
    state: &AppState,
    missing: &str,
    panes: &Vec<String>,
) -> (r: Result<SavedWorkspaceTemplate, String>)
    ensures
        match state.active_workspace_value() {
            None => r matches Err(message) && message@ == missing@,
            Some(ws) => if ws.tabs@.len() == 0 {
                r matches Err(message) && message@
                    == "Cannot save an empty workspace as a template"@
            } else {
                r matches Ok(template) && (
                    template.tabs.deep_view(),
                    template.active_tab_index as nat,
                ) == saved_workspace(ws, panes.deep_view()) && template.work_origin.deep_view() == Some(
                    ws.work_origin@,
                )
            },
        },
{
    let ws = match state.active_ws() {
        Some(ws) => ws,
        None => {
            return Err(missing.to_owned());
        },
    };
    if ws.tabs.len() == 0 {
        return Err("Cannot save an empty workspace as a template".to_owned());
    }
    let ghost all = ws.tabs@;
    let ghost views = saved_tabs(all, panes.deep_view());
    let mut tabs: Vec<SavedTab> = Vec::new();
    let mut i: usize = 0;
    assert(tabs.deep_view() =~= views.take(0));
    while i < ws.tabs.len()
        invariant
            all == ws.tabs@,
            views == saved_tabs(all, panes.deep_view()),
            i <= ws.tabs.len(),
            tabs.deep_view() == views.take(i as int),
        decreases ws.tabs.len() - i,
    {
        let tree = if i < panes.len() {
            Some(panes[i].clone())
        } else {
            None
        };
        assert(tree.deep_view() == item_at(panes.deep_view(), i as int));
        let saved = snapshot_saved_tab(&ws.tabs[i], tree);
        assert(saved.deep_view() == views[i as int]);
        let ghost before = tabs.deep_view();
        tabs.push(saved);
        assert(tabs.deep_view() =~= before.push(views[i as int]));
        assert(tabs.deep_view() =~= views.take(i + 1));
        i += 1;
    }
    assert(views.take(i as int) =~= views);
    let mut at: usize = 0;
    assert(all.skip(0) =~= all);
    while at < ws.tabs.len() && ws.tabs[at].id != ws.active_tab
        invariant
            all == ws.tabs@,
            at <= all.len(),
            at + tab_position(all.skip(at as int), ws.active_tab) == tab_position(
                all,
                ws.active_tab,
            ),
        decreases all.len() - at,
    {
        assert(all.skip(at as int).skip(1) =~= all.skip(at + 1));
        at += 1;
    }
    let active_tab_index: usize = if at < ws.tabs.len() {
        at
    } else {
        0
    };
    Ok(
        SavedWorkspaceTemplate {
            work_origin: Some(ws.work_origin.clone()),
            tabs,
            active_tab_index,
        },
    )
}

/// The name that a new template of the active tab starts with; else what the user is told.
pub fn tab_template_name(state: &AppState) -> (r: Result<String, &'static str>)
    ensures
        match state.active_tab_value() {
            Some(tab) => r matches Ok(name) && name@ == tab.name@,
            None => r matches Err(message) && message@
                == "Cannot save tab template without an active tab"@,
        },
{
    match state.active_tab() {
        Some(tab) => Ok(tab.name.clone()),
        None => Err("Cannot save tab template without an active tab"),
    }
}

/// The active tab as a template; else what the user is told. `panes` is its tree of panes.
pub fn snapshot_tab_template(
    state: &AppState,
    name: String,
    panes: Option<String>,
) -> (r: Result<TemplateRecord, &'static str>)
    ensures
        match state.active_tab_value() {
            Some(tab) => r matches Ok(TemplateRecord::Tab { name: own, tab: saved }) && own@
                == name@ && saved.deep_view() == saved_tab(tab, panes.deep_view()),
            None => r matches Err(message) && message@
                == "Active tab disappeared before saving template"@,
        },
{
    match state.active_tab() {
        Some(tab) => Ok(TemplateRecord::Tab { name, tab: snapshot_saved_tab(tab, panes) }),
        None => Err("Active tab disappeared before saving template"),
    }
}

/// The name that a new template of the active workspace starts with; else what the user is
/// told.
pub fn workspace_template_name(state: &AppState) -> (r: Result<String, &'static str>)
    ensures
        match state.active_workspace_value() {
            None => r matches Err(message) && message@
                == "Cannot save workspace template without an active workspace"@,
            Some(ws) => if ws.tabs@.len() == 0 {
                r matches Err(message) && message@
                    == "Cannot save an empty workspace as a template"@
            } else {
                r matches Ok(name) && name@ == ws.name@
            },
        },
{
    match state.active_ws() {
        None => Err("Cannot save workspace template without an active workspace"),
        Some(ws) => {
            if ws.tabs.len() == 0 {
                Err("Cannot save an empty workspace as a template")
            } else {
                Ok(ws.name.clone())
            }
        },
    }
}

/// The first directory on this machine among those of saved tabs. `uris` is what is known
/// of the `file` URIs among them, tab by tab.
pub open spec fn first_local_path(
    tabs: Seq<SavedTabView>,
    uris: Seq<Option<(Option<Seq<char>>, Seq<char>)>>,
) -> Option<Seq<char>>
    decreases tabs.len(),
{
    if tabs.len() == 0 || uris.len() == 0 {
        None
    } else {
        match local_path(tabs[0].cwd, uris[0]) {
            Some(path) => Some(path),
            None => first_local_path(tabs.skip(1), uris.skip(1)),
        }
    }
}

/// The directory in which git is asked about the workspace of a template: the first one on
/// this machine among those of its tabs. `uris` is the host and the path of each tab's
/// `file` URI.
pub fn template_git_path(
    tabs: &Vec<SavedTab>,
    uris: &Vec<Option<(Option<String>, String)>>,
) -> (r: Option<String>)
    ensures
        r.deep_view() == first_local_path(tabs.deep_view(), uris.deep_view()),
{
    let ghost all = tabs.deep_view();
    let ghost known = uris.deep_view();
    let mut i: usize = 0;
    assert(all.skip(0) =~= all);
    assert(known.skip(0) =~= known);
    while i < tabs.len() && i < uris.len()
        invariant
            all == tabs.deep_view(),
            known == uris.deep_view(),
            i <= all.len(),
            i <= known.len(),
            first_local_path(all.skip(i as int), known.skip(i as int)) == first_local_path(
                all,
                known,
            ),
        decreases all.len() - i,
    {
        assert(all.skip(i as int).skip(1) =~= all.skip(i + 1));
        assert(known.skip(i as int).skip(1) =~= known.skip(i + 1));
        assert(all[i as int] == tabs@[i as int].deep_view());
        assert(known[i as int] == uris@[i as int].deep_view());
        if let Some(path) = saved_template_cwd_to_local_path(&tabs[i].cwd, &uris[i]) {
            return Some(path);
        }
        i += 1;
    }
    None
}

/// A saved tab has the directory of the pane with the focus, and else of the first pane.
pub proof fn law_what_is_saved_of_a_tab(tab: Tab, panes: Option<Seq<char>>, i: int)
    ensures
        saved_tab(tab, panes).name == tab.name@,
        saved_tab(tab, panes).work_origin == Some(tab.work_origin@),
        saved_tab(tab, panes).panes == panes,
        saved_tab(tab, panes).discovery_cwd == tab.discovery_cwd.deep_view(),
        0 <= i < tab.panes.live().len() && tab.panes.live()[i].pane_id == tab.focused_pane_id && (
        forall|j: int|
            0 <= j < i ==> (#[trigger] tab.panes.live()[j]).pane_id != tab.focused_pane_id)
            ==> saved_tab(tab, panes).cwd == tab.panes.live()[i].saved_dir(),
        tab.panes.live().len() > 0 && (forall|j: int|
            0 <= j < tab.panes.live().len() ==> (#[trigger] tab.panes.live()[j]).pane_id
                != tab.focused_pane_id) ==> saved_tab(tab, panes).cwd
            == tab.panes.live()[0].saved_dir(),
        tab.panes.live().len() == 0 ==> saved_tab(tab, panes).cwd is None,
{
    let live = tab.panes.live();
    pane::law_panes_are_found_by_id(live, tab.focused_pane_id);
    if 0 <= i < live.len() && live[i].pane_id == tab.focused_pane_id && (forall|j: int|
        0 <= j < i ==> (#[trigger] live[j]).pane_id != tab.focused_pane_id) {
        pane::lemma_first_with_id(live, tab.focused_pane_id, i);
    }
}

/// A saved workspace has all of its tabs in their order, and remembers which had the focus;
/// the first one where none had.
pub proof fn law_what_is_saved_of_a_workspace(ws: Workspace, panes: Seq<Seq<char>>, i: int)
    ensures
        saved_workspace(ws, panes).0.len() == ws.tabs@.len(),
        0 <= i < ws.tabs@.len() && i < panes.len() ==> saved_workspace(ws, panes).0[i] == saved_tab(
            ws.tabs@[i],
            Some(panes[i]),
        ),
        0 <= i < ws.tabs@.len() && i >= panes.len() ==> saved_workspace(ws, panes).0[i]
            == saved_tab(ws.tabs@[i], None),
        0 <= i < ws.tabs@.len() && ws.tabs@[i].id == ws.active_tab && (forall|j: int|
            0 <= j < i ==> (#[trigger] ws.tabs@[j]).id != ws.active_tab) ==> saved_workspace(
            ws,
            panes,
        ).1 == i,
        (forall|j: int| 0 <= j < ws.tabs@.len() ==> (#[trigger] ws.tabs@[j]).id != ws.active_tab)
            ==> saved_workspace(ws, panes).1 == 0,
{
    lemma_tab_position(ws.tabs@, ws.active_tab, i);
}

proof fn lemma_tab_position(tabs: Seq<Tab>, id: u32, i: int)
    ensures
        0 <= i < tabs.len() && tabs[i].id == id && (forall|j: int|
            0 <= j < i ==> (#[trigger] tabs[j]).id != id) ==> tab_position(tabs, id) == i,
        (forall|j: int| 0 <= j < tabs.len() ==> (#[trigger] tabs[j]).id != id) ==> tab_position(
            tabs,
            id,
        ) == tabs.len(),
    decreases tabs.len(),
{
    if tabs.len() > 0 {
        let rest = tabs.skip(1);
        lemma_tab_position(rest, id, i - 1);
        if 0 < i < tabs.len() && tabs[i].id == id && (forall|j: int|
            0 <= j < i ==> (#[trigger] tabs[j]).id != id) {
            assert(tabs[0].id != id);
            assert(rest[i - 1] == tabs[i]);
            assert forall|j: int| 0 <= j < i - 1 implies (#[trigger] rest[j]).id != id by {
                assert(rest[j] == tabs[j + 1]);
            }
        }
        if forall|j: int| 0 <= j < tabs.len() ==> (#[trigger] tabs[j]).id != id {
            assert(tabs[0].id != id);
            assert forall|j: int| 0 <= j < rest.len() implies (#[trigger] rest[j]).id != id by {
                assert(rest[j] == tabs[j + 1]);
            }
        }
    }
}

/// The tabs of a workspace template are opened under their names, in their directories and
/// with their panes; an unnamed one is called a shell. Tasks are looked for only in those that
/// had some, the first after half a second and each next a fifth of a second later.
pub proof fn law_how_workspace_templates_are_opened(tabs: Seq<SavedTabView>, i: int)
    requires
        0 <= i < tabs.len(),
        500 + 200 * tabs.len() <= u64::MAX,
    ensures
        ({
            let plans = workspace_tab_plans(tabs);
            &&& plans.len() == tabs.len()
            &&& text::trimmed(tabs[i].name).len() > 0 ==> plans[i].tab_name == tabs[i].name
            &&& text::trimmed(tabs[i].name).len() == 0 ==> plans[i].tab_name == "Shell"@
            &&& plans[i].cwd == tabs[i].cwd
            &&& plans[i].panes == tabs[i].panes
            &&& tabs[i].discovery_cwd is None ==> plans[i].discovery_delay_ms is None
            &&& tabs[i].discovery_cwd is Some && (forall|j: int|
                0 <= j < i ==> (#[trigger] tabs[j]).discovery_cwd is None)
                ==> plans[i].discovery_delay_ms == Some(500u64)
            &&& forall|j: int|
                0 <= j < i && tabs[i].discovery_cwd is Some && (
                #[trigger] tabs[j]).discovery_cwd is Some && (forall|m: int|
                    j < m < i ==> (#[trigger] tabs[m]).discovery_cwd is None)
                    ==> plans[i].discovery_delay_ms->0 == plans[j].discovery_delay_ms->0 + 200
        }),
{
    lemma_discovering_up_to(tabs, 0, i);
    lemma_discovering_bound(tabs.take(i));
    assert(tabs.take(0) =~= Seq::<SavedTabView>::empty());
    assert forall|j: int|
        0 <= j < i && tabs[i].discovery_cwd is Some && (#[trigger] tabs[j]).discovery_cwd is Some
            && (forall|m: int| j < m < i ==> (#[trigger] tabs[m]).discovery_cwd is None) implies 
        workspace_tab_plans(tabs)[i].discovery_delay_ms->0 == workspace_tab_plans(
            tabs,
        )[j].discovery_delay_ms->0 + 200 by {
        lemma_discovering_up_to(tabs, j + 1, i);
        assert(tabs.take(j + 1).drop_last() =~= tabs.take(j));
        lemma_discovering_bound(tabs.take(j));
    }
}

/// Tabs without tasks do not count.
proof fn lemma_discovering_up_to(tabs: Seq<SavedTabView>, from: int, to: int)
    requires
        0 <= from <= to <= tabs.len(),
    ensures
        (forall|j: int| from <= j < to ==> (#[trigger] tabs[j]).discovery_cwd is None)
            ==> discovering(tabs.take(to)) == discovering(tabs.take(from)),
    decreases to - from,
{
    if from < to && (forall|j: int| from <= j < to ==> (#[trigger] tabs[j]).discovery_cwd is None) {
        lemma_discovering_up_to(tabs, from, to - 1);
        assert(tabs.take(to).drop_last() =~= tabs.take(to - 1));
        assert(tabs[to - 1].discovery_cwd is None);
    }
}

/// No more tabs have tasks than there are.
proof fn lemma_discovering_bound(tabs: Seq<SavedTabView>)
    ensures
        discovering(tabs) <= tabs.len(),
    decreases tabs.len(),
{
    if tabs.len() > 0 {
        lemma_discovering_bound(tabs.drop_last());
    }
}

/// A template is found by its kind and its name, whatever the case of ASCII letters; the
/// first where several match.
pub proof fn law_templates_are_found(
    templates: Seq<TemplateRecord>,
    kind: TemplateKind,
    name: Seq<char>,
    i: int,
)
    ensures
        0 <= i < templates.len() && templates[i].kind_value() == kind
            && templates[i].name_text().len() == name.len() && text::ascii_lowered(
            templates[i].name_text(),
        ) == text::ascii_lowered(name) && (forall|j: int|
            0 <= j < i ==> (#[trigger] templates[j]).kind_value() != kind || text::ascii_lowered(
                templates[j].name_text(),
            ) != text::ascii_lowered(name)) ==> named_template(templates, kind, name) == Some(
            templates[i],
        ),
        (forall|j: int|
            0 <= j < templates.len() ==> (#[trigger] templates[j]).kind_value() != kind
                || text::ascii_lowered(templates[j].name_text()) != text::ascii_lowered(name))
            ==> named_template(templates, kind, name) is None,
    decreases templates.len(),
{
    if templates.len() > 0 {
        let rest = templates.skip(1);
        law_templates_are_found(rest, kind, name, i - 1);
        if 0 < i < templates.len() && (forall|j: int|
            0 <= j < i ==> (#[trigger] templates[j]).kind_value() != kind || text::ascii_lowered(
                templates[j].name_text(),
            ) != text::ascii_lowered(name)) {
            assert(templates[0].kind_value() != kind || text::ascii_lowered(
                templates[0].name_text(),
            ) != text::ascii_lowered(name));
            assert(rest[i - 1] == templates[i]);
            assert forall|j: int| 0 <= j < i - 1 implies (#[trigger] rest[j]).kind_value() != kind
                || text::ascii_lowered(rest[j].name_text()) != text::ascii_lowered(name) by {
                assert(rest[j] == templates[j + 1]);
            }
        }
        if forall|j: int|
            0 <= j < templates.len() ==> (#[trigger] templates[j]).kind_value() != kind
                || text::ascii_lowered(templates[j].name_text()) != text::ascii_lowered(name) {
            assert(templates[0].kind_value() != kind || text::ascii_lowered(
                templates[0].name_text(),
            ) != text::ascii_lowered(name));
            assert forall|j: int| 0 <= j < rest.len() implies (#[trigger] rest[j]).kind_value()
                != kind || text::ascii_lowered(rest[j].name_text()) != text::ascii_lowered(
                name,
            ) by {
                assert(rest[j] == templates[j + 1]);
            }
        }
    }
}

/// Each list of templates has the templates of its kind, in their order, with what choosing
/// one does; all can be deleted.
pub proof fn law_lists_of_templates(
    name: String,
    tab: SavedTab,
    workspace: SavedWorkspaceTemplate,
    templates: Seq<TemplateRecord>,
)
    ensures
        ({
            let a = TemplateRecord::Tab { name, tab };
            let b = TemplateRecord::Workspace { name, workspace };
            let rows = |mode: TemplateMode, all: Seq<TemplateRecord>| template_rows(mode, all);
            &&& a.kind_value() == TemplateKind::Tab && a.name_text() == name@
            &&& b.kind_value() == TemplateKind::Workspace && b.name_text() == name@
            &&& rows(TemplateMode::OpenTab, templates.push(a)) == rows(
                TemplateMode::OpenTab,
                templates,
            ).push(
                EntryView {
                    label: "New Tab from Template: "@ + name@,
                    shortcut: None,
                    action: ActionView::OpenTabTemplate(name@),
                },
            )
            &&& rows(TemplateMode::OpenTab, templates.push(b)) == rows(
                TemplateMode::OpenTab,
                templates,
            )
            &&& rows(TemplateMode::OpenWorkspace, templates.push(b)) == rows(
                TemplateMode::OpenWorkspace,
                templates,
            ).push(
                EntryView {
                    label: "New Workspace from Template: "@ + name@,
                    shortcut: None,
                    action: ActionView::OpenWorkspaceTemplate(name@),
                },
            )
            &&& rows(TemplateMode::OpenWorkspace, templates.push(a)) == rows(
                TemplateMode::OpenWorkspace,
                templates,
            )
            &&& rows(TemplateMode::Delete, templates.push(a)) == rows(
                TemplateMode::Delete,
                templates,
            ).push(
                EntryView {
                    label: "Delete "@ + "Tab"@ + " Template: "@ + name@,
                    shortcut: None,
                    action: ActionView::DeleteTemplate(TemplateKind::Tab, name@),
                },
            )
            &&& rows(TemplateMode::Delete, templates.push(b)) == rows(
                TemplateMode::Delete,
                templates,
            ).push(
                EntryView {
                    label: "Delete "@ + "Workspace"@ + " Template: "@ + name@,
                    shortcut: None,
                    action: ActionView::DeleteTemplate(TemplateKind::Workspace, name@),
                },
            )
        }),
{
    let a = TemplateRecord::Tab { name, tab };
    let b = TemplateRecord::Workspace { name, workspace };
    assert(templates.push(a).drop_last() =~= templates);
    assert(templates.push(b).drop_last() =~= templates);
}

/// A list of templates begins with the way back; while the templates are not there it says
/// so, and why where they cannot be read.
pub proof fn law_lists_of_templates_begin_with_the_way_back(
    mode: TemplateMode,
    templates: Vec<TemplateRecord>,
    error: String,
)
    ensures
        template_entries(mode, Some(Ok(templates)))[0] == entry::back_entry(),
        template_entries(mode, Some(Ok(templates))).skip(1) == template_rows(mode, templates@),
        template_entries(mode, None) == seq![
            entry::back_entry(),
            entry::plain("Loading templates…"@, ActionView::Noop),
        ],
        template_entries(mode, Some(Err(error))) == seq![
            entry::back_entry(),
            entry::plain(
                "⚠ Templates unavailable: "@ + error@,
                ActionView::ShowError("Could not load templates: "@ + error@),
            ),
        ],
{
    assert(template_entries(mode, Some(Ok(templates))).skip(1) =~= template_rows(mode, templates@));
    assert(template_entries(mode, None) =~= seq![
        entry::back_entry(),
        entry::plain("Loading templates…"@, ActionView::Noop),
    ]);
    assert(template_entries(mode, Some(Err(error))) =~= seq![
        entry::back_entry(),
        entry::plain(
            "⚠ Templates unavailable: "@ + error@,
            ActionView::ShowError("Could not load templates: "@ + error@),
        ),
    ]);
}

/// A saved directory is one of this machine where it is written as a path, from its first
/// separator on, or as a `file` URI without a host; a URI with a host is not.
pub proof fn law_saved_directories(
    dir: Seq<char>,
    host: Seq<char>,
    path: Seq<char>,
    uri: Option<(Option<Seq<char>>, Seq<char>)>,
)
    requires
        text::trimmed(dir) == dir,
        dir.len() > 0,
    ensures
        local_path(None, uri) is None,
        local_path(Some(Seq::empty()), uri) is None,
        text::has_prefix(dir, "file://"@) ==> {
            &&& local_path(Some(dir), Some((None, path))) == Some(path)
            &&& local_path(Some(dir), Some((Some(host), path))) is None
            &&& local_path(Some(dir), None) is None
        },
        !text::has_prefix(dir, "file://"@) && dir[0] == '/' ==> local_path(Some(dir), uri) == Some(
            dir,
        ),
        !text::has_prefix(dir, "file://"@) && !dir.contains('/') ==> local_path(Some(dir), uri)
            == Some(dir),
        !host.contains('/') && !text::has_prefix(dir, "file://"@) && dir == host + seq!['/'] + path
            ==> local_path(Some(dir), uri) == Some(seq!['/'] + path),
{
    assert(text::trimmed(Seq::<char>::empty()) =~= Seq::<char>::empty());
    text::law_before_the_first(dir, '/');
    if dir[0] == '/' {
        assert(dir.skip(0) =~= dir);
    }
    if !dir.contains('/') {
        let head = text::before_first(dir, '/');
        if head.len() < dir.len() {
            assert(dir.contains(dir[head.len() as int]));
        }
    }
    if !host.contains('/') && dir == host + seq!['/'] + path {
        assert forall|i: int| 0 <= i < host.len() implies host[i] != '/' by {
            assert(host.contains(host[i]));
        }
        text::lemma_no_separator(host, '/');
        text::lemma_before_first_of(host, path, '/');
        assert(dir.skip(host.len() as int) =~= seq!['/'] + path);
    }
}

/// Git is asked about the workspace of a template in the first directory of this machine
/// among those of its tabs.
pub proof fn law_the_first_local_directory(
    tabs: Seq<SavedTabView>,
    uris: Seq<Option<(Option<Seq<char>>, Seq<char>)>>,
    i: int,
)
    ensures
        0 <= i < tabs.len() && i < uris.len() && local_path(tabs[i].cwd, uris[i]) is Some && (
        forall|j: int| 0 <= j < i ==> local_path((#[trigger] tabs[j]).cwd, uris[j]) is None)
            ==> first_local_path(tabs, uris) == local_path(tabs[i].cwd, uris[i]),
        tabs.len() == uris.len() && (forall|j: int|
            0 <= j < tabs.len() ==> local_path((#[trigger] tabs[j]).cwd, uris[j]) is None)
            ==> first_local_path(tabs, uris) is None,
    decreases tabs.len(),
{
    if tabs.len() > 0 && uris.len() > 0 {
        let t = tabs.skip(1);
        let u = uris.skip(1);
        law_the_first_local_directory(t, u, i - 1);
        if 0 < i < tabs.len() && i < uris.len() && local_path(tabs[i].cwd, uris[i]) is Some && (
        forall|j: int| 0 <= j < i ==> local_path((#[trigger] tabs[j]).cwd, uris[j]) is None) {
            assert(local_path(tabs[0].cwd, uris[0]) is None);
            assert(t[i - 1] == tabs[i] && u[i - 1] == uris[i]);
            assert forall|j: int| 0 <= j < i - 1 implies local_path((#[trigger] t[j]).cwd, u[j])
                is None by {
                assert(t[j] == tabs[j + 1] && u[j] == uris[j + 1]);
            }
        }
        if tabs.len() == uris.len() && (forall|j: int|
            0 <= j < tabs.len() ==> local_path((#[trigger] tabs[j]).cwd, uris[j]) is None) {
            assert(local_path(tabs[0].cwd, uris[0]) is None);
            assert forall|j: int| 0 <= j < t.len() implies local_path((#[trigger] t[j]).cwd, u[j])
                is None by {
                assert(t[j] == tabs[j + 1] && u[j] == uris[j + 1]);
            }
        }
    }
}

} // verus!
