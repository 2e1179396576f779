//! The records that the palette lists: projects, hosts, templates and views.

use vstd::prelude::*;
use vstd::string::*;
use crate::text::copy_optional_text;

verus! {

/// The machine that a project is on.
#[derive(Clone, Debug, PartialEq, Eq)]
pub enum ProjectHost {
    Local,
    Ssh { name: String, ssh_target: String },
}

/// The mathematical value of a [`ProjectHost`].
pub enum ProjectHostView {
    Local,
    Ssh { name: Seq<char>, ssh_target: Seq<char> },
}

impl DeepView for ProjectHost {
    type V = ProjectHostView;

    open spec fn deep_view(&self) -> ProjectHostView {
        match self {
            ProjectHost::Local => ProjectHostView::Local,
            ProjectHost::Ssh { name, ssh_target } => ProjectHostView::Ssh {
                name: name@,
                ssh_target: ssh_target@,
            },
        }
    }
}

impl ProjectHostView {
    /// The machine as it is shown.
    pub open spec fn label(self) -> Seq<char> {
        match self {
            ProjectHostView::Local => "local"@,
            ProjectHostView::Ssh { name, .. } => name,
        }
    }
}

impl ProjectHost {
    /// The machine as it is shown: `local`, or the host's name.
    pub fn label(&self) -> (r: String)
        ensures
            r@ == self.deep_view().label(),
    {
        match self {
            ProjectHost::Local => "local".to_owned(),
            ProjectHost::Ssh { name, .. } => name.clone(),
        }
    }

    /// Another value of the same content.
    pub fn copy_host(&self) -> (r: ProjectHost)
        ensures
            r.deep_view() == self.deep_view(),
    {
        match self {
            ProjectHost::Local => ProjectHost::Local,
            ProjectHost::Ssh { name, ssh_target } => ProjectHost::Ssh {
                name: name.clone(),
                ssh_target: ssh_target.clone(),
            },
        }
    }
}

/// A project that the user registered.
#[derive(Clone, Debug, PartialEq, Eq)]
pub struct RegisteredProject {
    pub id: String,
    pub display_name: String,
    pub host: ProjectHost,
    pub canonical_repo: String,
    pub checkout_root: String,
}

/// The mathematical value of a [`RegisteredProject`].
pub struct ProjectView {
    pub id: Seq<char>,
    pub display_name: Seq<char>,
    pub host: ProjectHostView,
    pub canonical_repo: Seq<char>,
    pub checkout_root: Seq<char>,
}

impl DeepView for RegisteredProject {
    type V = ProjectView;

    open spec fn deep_view(&self) -> ProjectView {
        ProjectView {
            id: self.id@,
            display_name: self.display_name@,
            host: self.host.deep_view(),
            canonical_repo: self.canonical_repo@,
            checkout_root: self.checkout_root@,
        }
    }
}

impl RegisteredProject {
    /// Another value of the same content.
    pub fn copy_project(&self) -> (r: RegisteredProject)
        ensures
            r.deep_view() == self.deep_view(),
    {
        RegisteredProject {
            id: self.id.clone(),
            display_name: self.display_name.clone(),
            host: self.host.copy_host(),
            canonical_repo: self.canonical_repo.clone(),
            checkout_root: self.checkout_root.clone(),
        }
    }
}

/// A machine that a tab can be opened on.
#[derive(Clone, Debug, PartialEq, Eq)]
pub struct HostConfig {
    pub name: String,
    pub ssh_target: Option<String>,
}

/// The mathematical value of a [`HostConfig`].
pub struct HostView {
    pub name: Seq<char>,
    pub ssh_target: Option<Seq<char>>,
}

impl DeepView for HostConfig {
    type V = HostView;

    open spec fn deep_view(&self) -> HostView {
        HostView { name: self.name@, ssh_target: self.ssh_target.deep_view() }
    }
}

impl HostConfig {
    /// Another value of the same content.
    pub fn copy_host(&self) -> (r: HostConfig)
        ensures
            r.deep_view() == self.deep_view(),
    {
        HostConfig { name: self.name.clone(), ssh_target: copy_optional_text(&self.ssh_target) }
    }
}

/// The file that names a host.
#[derive(Clone, Copy, Debug, PartialEq, Eq, Structural)]
pub enum HostSource {
    ConfigToml,
    SshConfig,
}

/// A host that the palette offers.
#[derive(Clone, Debug, PartialEq, Eq)]
pub struct HostCandidate {
    pub name: String,
    pub config: HostConfig,
    pub source: HostSource,
}

/// The mathematical value of a [`HostCandidate`].
pub struct HostCandidateView {
    pub name: Seq<char>,
    pub config: HostView,
    pub source: HostSource,
}

impl DeepView for HostCandidate {
    type V = HostCandidateView;

    open spec fn deep_view(&self) -> HostCandidateView {
        HostCandidateView {
            name: self.name@,
            config: self.config.deep_view(),
            source: self.source,
        }
    }
}

/// What a template makes.
#[derive(Clone, Copy, Debug, PartialEq, Eq, Structural)]
pub enum TemplateKind {
    Tab,
    Workspace,
}

/// What a saved view shows.
#[derive(Clone, Copy, Debug, PartialEq, Eq, Structural)]
pub enum ViewPreset {
    AgentActivity,
    WorkspaceHealth,
    ListeningPorts,
    RecentAlerts,
    CurrentlyFlaggedPanes,
    FailingTestRuns,
}

/// A view of the dashboard that was saved.
#[derive(Clone, Debug, PartialEq, Eq)]
pub struct SavedView {
    pub name: String,
    pub preset: ViewPreset,
    /// The preset as it is shown.
    pub preset_label: String,
    /// How many rows the view shows at most.
    pub limit: Option<u32>,
}

/// The mathematical value of a [`SavedView`].
pub struct SavedViewView {
    pub name: Seq<char>,
    pub preset: ViewPreset,
    pub preset_label: Seq<char>,
    pub limit: Option<u32>,
}

impl DeepView for SavedView {
    type V = SavedViewView;

    open spec fn deep_view(&self) -> SavedViewView {
        SavedViewView {
            name: self.name@,
            preset: self.preset,
            preset_label: self.preset_label@,
            limit: self.limit,
        }
    }
}

/// A view to save: only the recent alerts are limited, to twenty.
pub fn new_saved_view(name: String, preset: ViewPreset, preset_label: String) -> (r: SavedView)
    ensures
        r.deep_view() == (SavedViewView {
            name: name@,
            preset,
            preset_label: preset_label@,
            limit: if preset == ViewPreset::RecentAlerts {
                Some(20u32)
            } else {
                None
            },
        }),
{
    SavedView {
        name,
        preset,
        preset_label,
        limit: if preset == ViewPreset::RecentAlerts {
            Some(20u32)
        } else {
            None
        },
    }
}

/// A project of this machine is shown as local, one of a host by the host's name.
pub proof fn law_places_of_projects(name: Seq<char>, ssh_target: Seq<char>)
    ensures
        ProjectHostView::Local.label() == "local"@,
        (ProjectHostView::Ssh { name, ssh_target }).label() == name,
{
}

} // verus!
