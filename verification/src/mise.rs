//! Task discovery with mise: where to look, what to run, what to show.

pub mod cache;
pub mod chip;
pub mod local;
pub mod remote;
pub mod tasks;

use vstd::prelude::*;
use vstd::string::*;
use crate::pane::{PaneLeaf, TmuxBacking};
use crate::paths;
use crate::paths::{ancestor_paths, join_path};
use crate::text;
use crate::text::{
    copy_optional_text, copy_texts, same_ignoring_ascii_case, same_text, same_texts, text_before_first,
    trim, trimmed_non_empty,
};
use crate::workspace;
use crate::workspace::{AppState, Tab, TabKind, Workspace};
use self::remote::{ssh_destination_host, ssh_supports_remote_exec};

verus! {

/// A task that mise offers.
#[derive(Debug, Clone, PartialEq, Eq)]
pub struct MiseTask {
    pub name: String,
    pub description: String,
    pub hide: bool,
    /// The file that defines the task.
    pub source: Option<String>,
    pub global: bool,
}

impl MiseTask {
    /// Another value of the same content.
    pub fn copy_task(&self) -> (r: MiseTask)
        ensures
            r == *self,
    {
        MiseTask {
            name: self.name.clone(),
            description: self.description.clone(),
            hide: self.hide,
            source: copy_optional_text(&self.source),
            global: self.global,
        }
    }
}

/// Where a task is defined, seen from the directory of discovery.
#[derive(Debug, Clone, Copy, PartialEq, Eq, Structural)]
pub enum MiseTaskScope {
    ProjectRoot,
    ParentDir,
    Global,
}

/// Where tasks are looked for.
#[derive(Debug, Clone, PartialEq, Eq)]
pub enum DiscoveryTarget {
    Local { cwd: String, binary_path: Option<String> },
    Remote { host: String, cwd: String, ssh_argv: Vec<String> },
}

/// The mathematical value of a [`DiscoveryTarget`].
pub enum TargetView {
    Local { cwd: Seq<char>, binary_path: Option<Seq<char>> },
    Remote { host: Seq<char>, cwd: Seq<char>, ssh_argv: Seq<Seq<char>> },
}

impl DeepView for DiscoveryTarget {
    type V = TargetView;

    open spec fn deep_view(&self) -> TargetView {
        match self {
            DiscoveryTarget::Local { cwd, binary_path } => TargetView::Local {
                cwd: cwd@,
                binary_path: binary_path.deep_view(),
            },
            DiscoveryTarget::Remote { host, cwd, ssh_argv } => TargetView::Remote {
                host: host@,
                cwd: cwd@,
                ssh_argv: ssh_argv.deep_view(),
            },
        }
    }
}

/// What identifies the tasks of a target: the directory, and for a remote one the whole
/// way there. The local mise binary does not belong to it.
pub enum TargetKey {
    Local { cwd: Seq<char> },
    Remote { host: Seq<char>, cwd: Seq<char>, ssh_argv: Seq<Seq<char>> },
}

impl TargetView {
    /// What identifies the tasks of this target.
    pub open spec fn key(self) -> TargetKey {
        match self {
            TargetView::Local { cwd, .. } => TargetKey::Local { cwd },
            TargetView::Remote { host, cwd, ssh_argv } => TargetKey::Remote { host, cwd, ssh_argv },
        }
    }

    /// The directory of this target.
    pub open spec fn dir(self) -> Seq<char> {
        match self {
            TargetView::Local { cwd, .. } => cwd,
            TargetView::Remote { cwd, .. } => cwd,
        }
    }

    /// The text that the user sees for this target. The SSH arguments are not shown: they
    /// may hold the paths of keys and the hosts on the way.
    pub open spec fn label(self) -> Seq<char> {
        match self {
            TargetView::Local { cwd, .. } => "local project "@ + cwd,
            TargetView::Remote { host, cwd, .. } => "remote project "@ + host + ":"@ + cwd,
        }
    }
}

impl DiscoveryTarget {
    /// Another value of the same target.
    pub fn copy_target(&self) -> (r: DiscoveryTarget)
        ensures
            r.deep_view() == self.deep_view(),
    {
        match self {
            DiscoveryTarget::Local { cwd, binary_path } => DiscoveryTarget::Local {
                cwd: cwd.clone(),
                binary_path: copy_optional_text(binary_path),
            },
            DiscoveryTarget::Remote { host, cwd, ssh_argv } => DiscoveryTarget::Remote {
                host: host.clone(),
                cwd: cwd.clone(),
                ssh_argv: copy_texts(ssh_argv),
            },
        }
    }

    /// The directory of this target.
    pub fn dir_text(&self) -> (r: &str)
        ensures
            r@ == self.deep_view().dir(),
    {
        match self {
            DiscoveryTarget::Local { cwd, .. } => cwd.as_str(),
            DiscoveryTarget::Remote { cwd, .. } => cwd.as_str(),
        }
    }
}

/// Whether two targets have the same tasks: the same directory on this machine, or the
/// same directory reached by the same SSH arguments.
pub fn same_task_target(left: &DiscoveryTarget, right: &DiscoveryTarget) -> (r: bool)
    ensures
        r == (left.deep_view().key() == right.deep_view().key()),
{
    match (left, right) {
        (DiscoveryTarget::Local { cwd: a, .. }, DiscoveryTarget::Local { cwd: b, .. }) => same_text(
            a.as_str(),
            b.as_str(),
        ),
        (
            DiscoveryTarget::Remote { host: h1, cwd: c1, ssh_argv: s1 },
            DiscoveryTarget::Remote { host: h2, cwd: c2, ssh_argv: s2 },
        ) => same_text(h1.as_str(), h2.as_str()) && same_text(c1.as_str(), c2.as_str())
            && same_texts(s1, s2),
        _ => false,
    }
}

/// The text that the user sees for a target.
pub fn task_target_label(target: &DiscoveryTarget) -> (r: String)
    ensures
        r@ == target.deep_view().label(),
{
    match target {
        DiscoveryTarget::Local { cwd, .. } => {
            let mut label = "local project ".to_owned();
            label.append(cwd.as_str());
            label
        },
        DiscoveryTarget::Remote { host, cwd, .. } => {
            let mut label = "remote project ".to_owned();
            label.append(host.as_str());
            label.append(":");
            label.append(cwd.as_str());
            label
        },
    }
}

/// The directory that a probe of tmux reported.
pub open spec fn tmux_dir(backing: TmuxBacking) -> Option<Seq<char>> {
    match backing.pane_info.value {
        Some(info) => text::filled(info.cwd@),
        None => None,
    }
}

/// The directory that a probe of tmux reported, unless it is blank.
pub fn tmux_backing_cwd(backing: &TmuxBacking) -> (r: Option<String>)
    ensures
        r.deep_view() == tmux_dir(*backing),
{
    match backing.pane_info.value() {
        Some(info) => trimmed_non_empty(info.cwd.as_str()),
        None => None,
    }
}

/// The directory of a pane: what its shell reported, else what tmux reported.
pub open spec fn leaf_dir(leaf: PaneLeaf) -> Option<Seq<char>> {
    let reported = match leaf.location_state.cwd {
        Some(cwd) => text::filled(cwd@),
        None => None,
    };
    match reported {
        Some(cwd) => Some(cwd),
        None => match leaf.tmux_backing {
            Some(backing) => tmux_dir(backing),
            None => None,
        },
    }
}

fn pane_leaf_discovery_cwd(leaf: &PaneLeaf) -> (r: Option<String>)
    ensures
        r.deep_view() == leaf_dir(*leaf),
{
    if let Some(cwd) = &leaf.location_state.cwd {
        let reported = trimmed_non_empty(cwd.as_str());
        if reported.is_some() {
            return reported;
        }
    }
    match &leaf.tmux_backing {
        Some(backing) => tmux_backing_cwd(backing),
        None => None,
    }
}

/// The host of a pane: what its shell reported, else the server of its tmux session.
pub open spec fn leaf_host(leaf: PaneLeaf) -> Option<Seq<char>> {
    let reported = match leaf.location_state.cwd_host {
        Some(host) => text::filled(host@),
        None => None,
    };
    match reported {
        Some(host) => Some(host),
        None => match leaf.tmux_backing {
            Some(backing) => backing.target.deep_view().ssh_target(),
            None => None,
        },
    }
}

fn pane_leaf_discovery_host(leaf: &PaneLeaf) -> (r: Option<String>)
    ensures
        r.deep_view() == leaf_host(*leaf),
{
    if let Some(host) = &leaf.location_state.cwd_host {
        let reported = trimmed_non_empty(host.as_str());
        if reported.is_some() {
            return reported;
        }
    }
    match &leaf.tmux_backing {
        Some(backing) => backing.target.ssh_target_string(),
        None => None,
    }
}

/// The directory that is probed on a remote host when none is known: the home of the
/// login shell there.
pub const REMOTE_DEFAULT_CWD: &'static str = ".";

/// Whether `host` names this machine, whose name is `local`: an alias of the machine
/// itself, or a name with the same first label.
pub open spec fn names_this_machine(host: Seq<char>, local: Seq<char>) -> bool {
    let name = text::trimmed(host);
    ||| name.len() == 0
    ||| text::ascii_lowered(name) == text::ascii_lowered("localhost"@)
    ||| name == "127.0.0.1"@
    ||| name == "::1"@
    ||| text::ascii_lowered(text::before_first(local, '.')) == text::ascii_lowered(
        text::before_first(name, '.'),
    )
}

/// Whether `host` names this machine, whose name is `local`. A shell on this machine may
/// report its own host name; taking that for a remote host would connect to itself.
pub fn host_is_local(host: &str, local: &str) -> (r: bool)
    ensures
        r == names_this_machine(host@, local@),
{
    let name = trim(host);
    if name.as_str().is_empty() || same_ignoring_ascii_case(name.as_str(), "localhost") || same_text(
        name.as_str(),
        "127.0.0.1",
    ) || same_text(name.as_str(), "::1") {
        return true;
    }
    let local_short = text_before_first(local, '.');
    let host_short = text_before_first(name.as_str(), '.');
    same_ignoring_ascii_case(local_short.as_str(), host_short.as_str())
}

/// What is known of a pane that bears on task discovery.
#[derive(Debug, Clone, Default)]
pub struct PaneDiscoverySignals {
    pub cwd: Option<String>,
    /// The host that reported the directory.
    pub cwd_host: Option<String>,
    /// The arguments of an SSH client that runs in the pane.
    pub ssh_command: Option<Vec<String>>,
    /// Whether the pane runs a remote shell.
    pub remote_shell: bool,
}

/// The mathematical value of [`PaneDiscoverySignals`].
pub struct SignalsView {
    pub cwd: Option<Seq<char>>,
    pub cwd_host: Option<Seq<char>>,
    pub ssh_command: Option<Seq<Seq<char>>>,
    pub remote_shell: bool,
}

impl DeepView for PaneDiscoverySignals {
    type V = SignalsView;

    open spec fn deep_view(&self) -> SignalsView {
        SignalsView {
            cwd: self.cwd.deep_view(),
            cwd_host: self.cwd_host.deep_view(),
            ssh_command: self.ssh_command.deep_view(),
            remote_shell: self.remote_shell,
        }
    }
}

impl SignalsView {
    /// Nothing is known.
    pub open spec fn none() -> SignalsView {
        SignalsView { cwd: None, cwd_host: None, ssh_command: None, remote_shell: false }
    }

    /// What is known of a live pane.
    pub open spec fn of_leaf(leaf: PaneLeaf) -> SignalsView {
        SignalsView {
            cwd: leaf_dir(leaf),
            cwd_host: leaf_host(leaf),
            ssh_command: leaf.process_state.ssh_command.deep_view(),
            remote_shell: leaf.process_state.remote_shell,
        }
    }

    /// The host that was reported, unless it is this machine.
    pub open spec fn remote_host(self, local: Seq<char>) -> Option<Seq<char>> {
        match self.cwd_host {
            Some(host) => if text::trimmed(host).len() > 0 && !names_this_machine(
                text::trimmed(host),
                local,
            ) {
                Some(text::trimmed(host))
            } else {
                None
            },
            None => None,
        }
    }

    /// The arguments of an SSH client that can run a remote command.
    pub open spec fn usable_ssh(self) -> Option<Seq<Seq<char>>> {
        match self.ssh_command {
            Some(argv) => if remote::takes_remote_command(argv) {
                Some(argv)
            } else {
                None
            },
            None => None,
        }
    }

    /// The host that an SSH client in the pane connects to, unless it is this machine.
    pub open spec fn ssh_host(self, local: Seq<char>) -> Option<Seq<char>> {
        match self.usable_ssh() {
            Some(argv) => match remote::destination_host(argv) {
                Some(host) => if names_this_machine(host, local) {
                    None
                } else {
                    Some(host)
                },
                None => None,
            },
            None => None,
        }
    }

    /// The target that these signals lead to:
    /// a remote host that reported a directory, at that directory;
    /// else the destination of an SSH client, at its default directory (the known
    /// directory is the one on this machine that SSH was started in);
    /// else the known directory on this machine.
    pub open spec fn target(
        self,
        fallback: Option<Seq<char>>,
        binary_path: Option<Seq<char>>,
        local: Seq<char>,
    ) -> Option<TargetView> {
        let cwd = match self.cwd {
            Some(cwd) => Some(cwd),
            None => fallback,
        };
        if self.remote_host(local) is Some && cwd is Some {
            let host = self.remote_host(local)->0;
            Some(
                TargetView::Remote {
                    host,
                    cwd: cwd->0,
                    ssh_argv: match self.usable_ssh() {
                        Some(argv) => argv,
                        None => seq!["ssh"@, host],
                    },
                },
            )
        } else if self.remote_shell && self.ssh_host(local) is Some {
            Some(
                TargetView::Remote {
                    host: self.ssh_host(local)->0,
                    cwd: REMOTE_DEFAULT_CWD@,
                    ssh_argv: self.usable_ssh()->0,
                },
            )
        } else {
            match cwd {
                Some(cwd) => Some(TargetView::Local { cwd, binary_path }),
                None => None,
            }
        }
    }

    /// Why these signals lead to no target: any sign of a remote session counts as one
    /// that could not be resolved.
    pub open spec fn failure(self, local: Seq<char>) -> DiscoveryTargetFailure {
        if self.remote_shell || (self.ssh_command matches Some(argv) && argv.len() > 0)
            || self.remote_host(local) is Some {
            DiscoveryTargetFailure::UnresolvedRemoteContext
        } else {
            DiscoveryTargetFailure::NoWorkingDirectory
        }
    }
}

impl PaneDiscoverySignals {
    /// What is known of a live pane.
    pub fn from_leaf(leaf: &PaneLeaf) -> (r: PaneDiscoverySignals)
        ensures
            r.deep_view() == SignalsView::of_leaf(*leaf),
    {
        PaneDiscoverySignals {
            cwd: pane_leaf_discovery_cwd(leaf),
            cwd_host: pane_leaf_discovery_host(leaf),
            ssh_command: leaf.ssh_command(),
            remote_shell: leaf.process_state.remote_shell,
        }
    }

    fn remote_host_name(&self, local: &str) -> (r: Option<String>)
        ensures
            r.deep_view() == self.deep_view().remote_host(local@),
    {
        match &self.cwd_host {
            Some(host) => {
                let name = trim(host.as_str());
                if !name.as_str().is_empty() && !host_is_local(name.as_str(), local) {
                    Some(name)
                } else {
                    None
                }
            },
            None => None,
        }
    }

    fn usable_ssh_argv(&self) -> (r: Option<Vec<String>>)
        ensures
            r.deep_view() == self.deep_view().usable_ssh(),
    {
        match &self.ssh_command {
            Some(argv) => if ssh_supports_remote_exec(argv) {
                Some(copy_texts(argv))
            } else {
                None
            },
            None => None,
        }
    }
}

/// The target that the signals of a pane lead to, on the machine named `local`.
pub fn resolve_discovery_target_from_signals(
    signals: &PaneDiscoverySignals,
    fallback_cwd: Option<String>,
    binary_path: Option<String>,
    local: &str,
) -> (r: Option<DiscoveryTarget>)
    ensures
        r.deep_view() == signals.deep_view().target(
            fallback_cwd.deep_view(),
            binary_path.deep_view(),
            local@,
        ),
{
    let cwd = match &signals.cwd {
        Some(cwd) => Some(cwd.clone()),
        None => fallback_cwd,
    };
    let remote_host = signals.remote_host_name(local);
    if let Some(host) = remote_host {
        if let Some(cwd) = &cwd {
            let ssh_argv = match signals.usable_ssh_argv() {
                Some(argv) => argv,
                None => {
                    let mut argv: Vec<String> = Vec::new();
                    argv.push("ssh".to_owned());
                    argv.push(host.clone());
                    assert(argv.deep_view() =~= seq!["ssh"@, host@]);
                    argv
                },
            };
            return Some(DiscoveryTarget::Remote { host, cwd: cwd.clone(), ssh_argv });
        }
    }
    if signals.remote_shell {
        if let Some(argv) = signals.usable_ssh_argv() {
            if let Some(host) = ssh_destination_host(&argv) {
                if !host_is_local(host.as_str(), local) {
                    return Some(
                        DiscoveryTarget::Remote {
                            host,
                            cwd: REMOTE_DEFAULT_CWD.to_owned(),
                            ssh_argv: argv,
                        },
                    );
                }
            }
        }
    }
    match cwd {
        Some(cwd) => Some(DiscoveryTarget::Local { cwd, binary_path }),
        None => None,
    }
}

/// Why no target was found.
#[derive(Debug, Clone, Copy, PartialEq, Eq, Structural)]
pub enum DiscoveryTargetFailure {
    /// A shell on this machine that has not reported a directory yet.
    NoWorkingDirectory,
    /// A remote session without a host and a directory to probe.
    UnresolvedRemoteContext,
}

/// Why the signals of a pane lead to no target.
pub fn classify_unresolved_signals(
    signals: &PaneDiscoverySignals,
    local: &str,
) -> (r: DiscoveryTargetFailure)
    ensures
        r == signals.deep_view().failure(local@),
{
    let has_ssh = match &signals.ssh_command {
        Some(argv) => argv.len() > 0,
        None => false,
    };
    if signals.remote_shell || has_ssh || signals.remote_host_name(local).is_some() {
        DiscoveryTargetFailure::UnresolvedRemoteContext
    } else {
        DiscoveryTargetFailure::NoWorkingDirectory
    }
}

/// The signals of a tab: those of the focused pane, else of the first one; none without
/// live panes.
pub open spec fn tab_signals(tab: Tab) -> SignalsView {
    match crate::pane::find_leaf(tab.panes.live(), tab.focused_pane_id) {
        Some(leaf) => SignalsView::of_leaf(leaf),
        None => if tab.panes.live().len() > 0 {
            SignalsView::of_leaf(tab.panes.live()[0])
        } else {
            SignalsView::none()
        },
    }
}

fn signals_of_tab(tab: &Tab) -> (r: PaneDiscoverySignals)
    ensures
        r.deep_view() == tab_signals(*tab),
{
    match tab.panes.leaf(tab.focused_pane_id) {
        Some(leaf) => PaneDiscoverySignals::from_leaf(leaf),
        None => match tab.panes.first_leaf() {
            Some(leaf) => PaneDiscoverySignals::from_leaf(leaf),
            None => PaneDiscoverySignals {
                cwd: None,
                cwd_host: None,
                ssh_command: None,
                remote_shell: false,
            },
        },
    }
}

/// The target of a tab.
pub open spec fn tab_target(
    tab: Tab,
    binary_path: Option<Seq<char>>,
    local: Seq<char>,
) -> Option<TargetView> {
    tab_signals(tab).target(tab.discovery_cwd.deep_view(), binary_path, local)
}

/// The target of a tab: what its focused pane leads to, with the directory of the last
/// discovery where the pane reports none.
pub fn target_for_tab(tab: &Tab, binary_path: Option<String>, local: &str) -> (r: Option<
    DiscoveryTarget,
>)
    ensures
        r.deep_view() == tab_target(*tab, binary_path.deep_view(), local@),
{
    let signals = signals_of_tab(tab);
    resolve_discovery_target_from_signals(
        &signals,
        copy_optional_text(&tab.discovery_cwd),
        binary_path,
        local,
    )
}

/// Why a tab has no target.
pub fn classify_discovery_target_failure(tab: &Tab, local: &str) -> (r: DiscoveryTargetFailure)
    ensures
        r == tab_signals(*tab).failure(local@),
{
    let signals = signals_of_tab(tab);
    classify_unresolved_signals(&signals, local)
}

/// A target is missing only without a directory: signals with a directory always lead to
/// a target.
pub proof fn law_a_directory_leads_to_a_target(
    signals: SignalsView,
    fallback: Option<Seq<char>>,
    binary_path: Option<Seq<char>>,
    local: Seq<char>,
)
    ensures
        signals.target(fallback, binary_path, local) is None ==> signals.cwd is None && fallback is None,
{
}

/// No remote target is this machine: a shell that reports the name of this machine, or an
/// SSH client that connects to it, is not discovered over SSH.
pub proof fn law_remote_targets_are_other_machines(
    signals: SignalsView,
    fallback: Option<Seq<char>>,
    binary_path: Option<Seq<char>>,
    local: Seq<char>,
)
    ensures
        signals.target(fallback, binary_path, local) matches Some(TargetView::Remote { host, .. })
            ==> !names_this_machine(host, local),
{
}

/// The directory on this machine that SSH was started in is never taken for a directory
/// of the remote host: without a reported remote host, a remote target is at the default
/// directory.
pub proof fn law_local_directory_is_not_replayed_remotely(
    signals: SignalsView,
    fallback: Option<Seq<char>>,
    binary_path: Option<Seq<char>>,
    local: Seq<char>,
)
    requires
        signals.remote_host(local) is None,
    ensures
        signals.target(fallback, binary_path, local) matches Some(TargetView::Remote { cwd, .. })
            ==> cwd == REMOTE_DEFAULT_CWD@,
{
}

/// The mise binary that is recorded for a tab.
pub open spec fn recorded_binary(state: AppState, tab_id: u32) -> Option<Seq<char>> {
    if state.discovery_binary_paths@.contains_key(tab_id) {
        Some(state.discovery_binary_paths@[tab_id]@)
    } else {
        None
    }
}

fn recorded_binary_path(state: &AppState, tab_id: u32) -> (r: Option<String>)
    ensures
        r.deep_view() == recorded_binary(*state, tab_id),
{
    broadcast use vstd::std_specs::hash::group_hash_axioms;

    match state.discovery_binary_paths.get(&tab_id) {
        Some(path) => Some(path.clone()),
        None => None,
    }
}

/// The first terminal tab.
pub open spec fn first_terminal(tabs: Seq<Tab>) -> Option<Tab>
    decreases tabs.len(),
{
    if tabs.len() == 0 {
        None
    } else if tabs[0].kind == TabKind::Terminal {
        Some(tabs[0])
    } else {
        first_terminal(tabs.skip(1))
    }
}

/// The first terminal tab with this id.
pub open spec fn terminal_with_id(tabs: Seq<Tab>, id: u32) -> Option<Tab>
    decreases tabs.len(),
{
    if tabs.len() == 0 {
        None
    } else if tabs[0].id == id && tabs[0].kind == TabKind::Terminal {
        Some(tabs[0])
    } else {
        terminal_with_id(tabs.skip(1), id)
    }
}

/// The tab of a workspace that is discovered: the active one if it is a terminal, else
/// the first terminal.
pub open spec fn discovered_tab(ws: Workspace) -> Option<Tab> {
    match terminal_with_id(ws.tabs@, ws.active_tab) {
        Some(tab) => Some(tab),
        None => first_terminal(ws.tabs@),
    }
}

fn discovered_tab_of(ws: &Workspace) -> (r: Option<&Tab>)
    ensures
        r is Some <==> discovered_tab(*ws) is Some,
        r matches Some(tab) ==> discovered_tab(*ws) == Some(*tab),
{
    let ghost all = ws.tabs@;
    let mut i: usize = 0;
    assert(all.skip(0) =~= all);
    while i < ws.tabs.len()
        invariant
            all == ws.tabs@,
            i <= all.len(),
            terminal_with_id(all.skip(i as int), ws.active_tab) == terminal_with_id(
                all,
                ws.active_tab,
            ),
        decreases all.len() - i,
    {
        assert(all.skip(i as int).skip(1) =~= all.skip(i + 1));
        if ws.tabs[i].id == ws.active_tab && ws.tabs[i].kind == TabKind::Terminal {
            return Some(&ws.tabs[i]);
        }
        i += 1;
    }
    let mut i: usize = 0;
    while i < ws.tabs.len()
        invariant
            all == ws.tabs@,
            i <= all.len(),
            terminal_with_id(all, ws.active_tab) is None,
            first_terminal(all.skip(i as int)) == first_terminal(all),
        decreases all.len() - i,
    {
        assert(all.skip(i as int).skip(1) =~= all.skip(i + 1));
        if ws.tabs[i].kind == TabKind::Terminal {
            return Some(&ws.tabs[i]);
        }
        i += 1;
    }
    None
}

/// The directory of a workspace's checkout: the working tree, else the repository.
pub open spec fn workspace_root(ws: Workspace) -> Option<Seq<char>> {
    match ws.working_tree_path {
        Some(path) => Some(path@),
        None => ws.repo_root.deep_view(),
    }
}

/// The target of a workspace. On this machine its checkout comes first; otherwise, and
/// where there is no checkout, its terminal tab, and the checkout again in the end.
pub open spec fn workspace_target(
    state: AppState,
    ws_id: u32,
    local: Seq<char>,
) -> Option<TargetView> {
    match workspace::find_workspace(state.workspaces@, ws_id) {
        None => None,
        Some(ws) => {
            let root = match workspace_root(ws) {
                Some(cwd) => Some(TargetView::Local { cwd, binary_path: None }),
                None => None,
            };
            if ws.host_config_name is None && root is Some {
                root
            } else {
                let from_tab = match discovered_tab(ws) {
                    Some(tab) => tab_target(tab, recorded_binary(state, tab.id), local),
                    None => None,
                };
                match from_tab {
                    Some(target) => Some(target),
                    None => root,
                }
            }
        },
    }
}

/// The target of a workspace.
pub fn discovery_target_for_workspace(
    state: &AppState,
    ws_id: u32,
    local: &str,
) -> (r: Option<DiscoveryTarget>)
    ensures
        r.deep_view() == workspace_target(*state, ws_id, local@),
{
    let ws = match state.find_workspace(ws_id) {
        Some(ws) => ws,
        None => {
            return None;
        },
    };
    let root = match &ws.working_tree_path {
        Some(path) => Some(path.clone()),
        None => copy_optional_text(&ws.repo_root),
    };
    if ws.host_config_name.is_none() {
        if let Some(cwd) = root {
            return Some(DiscoveryTarget::Local { cwd, binary_path: None });
        }
    } else {
        if let Some(tab) = discovered_tab_of(ws) {
            let target = target_for_tab(tab, recorded_binary_path(state, tab.id), local);
            if target.is_some() {
                return target;
            }
        }
        return match root {
            Some(cwd) => Some(DiscoveryTarget::Local { cwd, binary_path: None }),
            None => None,
        };
    }
    if let Some(tab) = discovered_tab_of(ws) {
        let target = target_for_tab(tab, recorded_binary_path(state, tab.id), local);
        if target.is_some() {
            return target;
        }
    }
    None
}

/// The target of a tab of the active workspace; none for other tabs.
pub open spec fn active_tab_target(
    state: AppState,
    tab_id: u32,
    local: Seq<char>,
) -> Option<TargetView> {
    match workspace::find_tab_anywhere(state.workspaces@, tab_id) {
        Some((ws, tab)) => if ws.id == state.active_workspace {
            tab_target(tab, recorded_binary(state, tab.id), local)
        } else {
            None
        },
        None => None,
    }
}

/// The target of a tab of the active workspace.
pub fn discovery_target_for_tab(
    state: &AppState,
    tab_id: u32,
    local: &str,
) -> (r: Option<DiscoveryTarget>)
    ensures
        r.deep_view() == active_tab_target(*state, tab_id, local@),
{
    match state.find_tab(tab_id) {
        Some((ws, tab)) => {
            if ws.id != state.active_workspace {
                return None;
            }
            target_for_tab(tab, recorded_binary_path(state, tab.id), local)
        },
        None => None,
    }
}

/// What was found at a path: whether it is a directory, and for the path and each
/// directory above it, from the path up, whether mise is configured there.
#[derive(Debug, Clone, PartialEq, Eq)]
pub struct DirProbe {
    pub path: String,
    pub is_dir: bool,
    pub configured: Vec<bool>,
}

/// What was found at this path; nothing where it was not looked at.
pub open spec fn find_probe(probes: Seq<DirProbe>, path: Seq<char>) -> Option<DirProbe>
    decreases probes.len(),
{
    if probes.len() == 0 {
        None
    } else if probes[0].path@ == path {
        Some(probes[0])
    } else {
        find_probe(probes.skip(1), path)
    }
}

fn probe_at<'a>(probes: &'a Vec<DirProbe>, path: &str) -> (r: Option<&'a DirProbe>)
    ensures
        r is Some <==> find_probe(probes@, path@) is Some,
        r matches Some(probe) ==> find_probe(probes@, path@) == Some(*probe),
{
    let ghost all = probes@;
    let mut i: usize = 0;
    assert(all.skip(0) =~= all);
    while i < probes.len()
        invariant
            all == probes@,
            i <= all.len(),
            find_probe(all.skip(i as int), path@) == find_probe(all, path@),
        decreases all.len() - i,
    {
        assert(all.skip(i as int).skip(1) =~= all.skip(i + 1));
        if same_text(probes[i].path.as_str(), path) {
            return Some(&probes[i]);
        }
        i += 1;
    }
    None
}

/// The first of `dirs` that is marked.
pub open spec fn first_marked(dirs: Seq<Seq<char>>, marks: Seq<bool>) -> Option<Seq<char>>
    decreases dirs.len(),
{
    if dirs.len() == 0 || marks.len() == 0 {
        None
    } else if marks[0] {
        Some(dirs[0])
    } else {
        first_marked(dirs.skip(1), marks.skip(1))
    }
}

/// The nearest directory, from `dir` up, in which mise is configured; none where `dir` is
/// no directory.
pub open spec fn nearest_config(dir: Seq<char>, probes: Seq<DirProbe>) -> Option<Seq<char>> {
    match find_probe(probes, dir) {
        Some(probe) => if probe.is_dir {
            first_marked(paths::ancestors(dir), probe.configured@)
        } else {
            None
        },
        None => None,
    }
}

/// The nearest directory, from `dir` up, in which mise is configured.
pub fn nearest_mise_config_dir(dir: &str, probes: &Vec<DirProbe>) -> (r: Option<String>)
    ensures
        r.deep_view() == nearest_config(dir@, probes@),
{
    let probe = match probe_at(probes, dir) {
        Some(probe) => probe,
        None => {
            return None;
        },
    };
    if !probe.is_dir {
        return None;
    }
    let dirs = ancestor_paths(dir);
    let ghost all = dirs.deep_view();
    let ghost marks = probe.configured@;
    let mut i: usize = 0;
    assert(all.skip(0) =~= all);
    assert(marks.skip(0) =~= marks);
    while i < dirs.len() && i < probe.configured.len()
        invariant
            all == dirs.deep_view(),
            marks == probe.configured@,
            nearest_config(dir@, probes@) == first_marked(all, marks),
            i <= all.len(),
            i <= marks.len(),
            first_marked(all.skip(i as int), marks.skip(i as int)) == first_marked(all, marks),
        decreases all.len() - i,
    {
        assert(all.skip(i as int).skip(1) =~= all.skip(i + 1));
        assert(marks.skip(i as int).skip(1) =~= marks.skip(i + 1));
        if probe.configured[i] {
            assert(all[i as int] == dirs@[i as int]@);
            return Some(dirs[i].clone());
        }
        i += 1;
    }
    None
}

/// The files that configure mise in a directory.
pub fn mise_config_paths(dir: &str) -> (r: Vec<String>)
    ensures
        r.deep_view() == seq![
            paths::joined_path(dir@, "mise.toml"@),
            paths::joined_path(dir@, ".mise.toml"@),
            paths::joined_path(dir@, "mise.local.toml"@),
            paths::joined_path(dir@, "mise.dev.toml"@),
            paths::joined_path(dir@, "mise.prod.toml"@),
        ],
{
    let mut out: Vec<String> = Vec::new();
    out.push(join_path(dir, "mise.toml"));
    out.push(join_path(dir, ".mise.toml"));
    out.push(join_path(dir, "mise.local.toml"));
    out.push(join_path(dir, "mise.dev.toml"));
    out.push(join_path(dir, "mise.prod.toml"));
    assert(out.deep_view() =~= seq![
        paths::joined_path(dir@, "mise.toml"@),
        paths::joined_path(dir@, ".mise.toml"@),
        paths::joined_path(dir@, "mise.local.toml"@),
        paths::joined_path(dir@, "mise.dev.toml"@),
        paths::joined_path(dir@, "mise.prod.toml"@),
    ]);
    out
}

/// The directory of task files, which configures mise as well.
pub fn mise_task_dir(dir: &str) -> (r: String)
    ensures
        r@ == paths::joined_path(dir@, ".mise/tasks"@),
{
    join_path(dir, ".mise/tasks")
}

/// The directory in which the tasks of `cwd` are looked for: the nearest one with a mise
/// configuration, else `cwd` itself. The directory of the program and the home directory
/// have no part in it.
pub open spec fn scoped_dir(cwd: Seq<char>, probes: Seq<DirProbe>) -> Seq<char> {
    match nearest_config(cwd, probes) {
        Some(dir) => dir,
        None => cwd,
    }
}

/// The directory in which the tasks of `cwd` are looked for.
pub fn local_discovery_dir_from(cwd: &str, probes: &Vec<DirProbe>) -> (r: String)
    ensures
        r@ == scoped_dir(cwd@, probes@),
{
    match nearest_mise_config_dir(cwd, probes) {
        Some(dir) => dir,
        None => cwd.to_owned(),
    }
}

/// The target of a tab as task launches compare it: its directory is the one in which
/// tasks are looked for.
pub open spec fn launch_target(
    state: AppState,
    tab_id: u32,
    probes: Seq<DirProbe>,
    local: Seq<char>,
) -> Option<TargetView> {
    match active_tab_target(state, tab_id, local) {
        Some(TargetView::Local { cwd, binary_path }) => Some(
            TargetView::Local { cwd: scoped_dir(cwd, probes), binary_path },
        ),
        other => other,
    }
}

/// The target of a tab as task launches compare it.
pub fn task_target_for_tab(
    state: &AppState,
    tab_id: u32,
    probes: &Vec<DirProbe>,
    local: &str,
) -> (r: Option<DiscoveryTarget>)
    ensures
        r.deep_view() == launch_target(*state, tab_id, probes@, local@),
{
    match discovery_target_for_tab(state, tab_id, local) {
        Some(DiscoveryTarget::Local { cwd, binary_path }) => Some(
            DiscoveryTarget::Local {
                cwd: local_discovery_dir_from(cwd.as_str(), probes),
                binary_path,
            },
        ),
        other => other,
    }
}

/// What the program knows of its surroundings.
#[derive(Debug, Clone, PartialEq, Eq)]
pub struct Surroundings {
    pub current_dir: Option<String>,
    pub home: Option<String>,
    /// The name of this machine.
    pub host_name: String,
}

/// The optional text as a list of none or one.
pub open spec fn listed(s: Option<Seq<char>>) -> Seq<Seq<char>> {
    match s {
        Some(text) => seq![text],
        None => Seq::empty(),
    }
}

/// The directories in which tasks may be looked for, the best ones first: the given one,
/// the repository of the active workspace, the directory of the program, the home.
pub open spec fn candidate_dirs(
    state: AppState,
    initial: Option<Seq<char>>,
    around: Surroundings,
) -> Seq<Seq<char>> {
    let repo = match state.active_workspace_value() {
        Some(ws) => ws.repo_root.deep_view(),
        None => None,
    };
    listed(initial) + listed(repo) + listed(around.current_dir.deep_view()) + listed(
        around.home.deep_view(),
    )
}

fn add_optional(list: &mut Vec<String>, item: &Option<String>)
    ensures
        final(list).deep_view() == old(list).deep_view() + listed(item.deep_view()),
{
    if let Some(text) = item {
        list.push(text.clone());
    }
    assert(list.deep_view() =~= old(list).deep_view() + listed(item.deep_view()));
}

/// The directories in which tasks may be looked for, the best ones first.
pub fn local_discovery_candidates(
    state: &AppState,
    initial: Option<String>,
    around: &Surroundings,
) -> (r: Vec<String>)
    ensures
        r.deep_view() == candidate_dirs(*state, initial.deep_view(), *around),
{
    let mut out: Vec<String> = Vec::new();
    assert(out.deep_view() =~= Seq::empty());
    add_optional(&mut out, &initial);
    assert(out.deep_view() =~= listed(initial.deep_view()));
    let repo = match state.active_ws() {
        Some(ws) => copy_optional_text(&ws.repo_root),
        None => None,
    };
    add_optional(&mut out, &repo);
    add_optional(&mut out, &around.current_dir);
    add_optional(&mut out, &around.home);
    out
}

/// Whether this path is a directory.
pub open spec fn is_existing_dir(path: Seq<char>, probes: Seq<DirProbe>) -> bool {
    find_probe(probes, path) matches Some(probe) && probe.is_dir
}

/// The first of the directories at or above which mise is configured.
pub open spec fn first_configured(dirs: Seq<Seq<char>>, probes: Seq<DirProbe>) -> Option<Seq<char>>
    decreases dirs.len(),
{
    if dirs.len() == 0 {
        None
    } else if nearest_config(dirs[0], probes) is Some {
        Some(dirs[0])
    } else {
        first_configured(dirs.skip(1), probes)
    }
}

/// The first of the paths that is a directory.
pub open spec fn first_existing(dirs: Seq<Seq<char>>, probes: Seq<DirProbe>) -> Option<Seq<char>>
    decreases dirs.len(),
{
    if dirs.len() == 0 {
        None
    } else if is_existing_dir(dirs[0], probes) {
        Some(dirs[0])
    } else {
        first_existing(dirs.skip(1), probes)
    }
}

/// The best of the directories: the first at or above which mise is configured, else the
/// first that exists.
pub open spec fn best_dir(dirs: Seq<Seq<char>>, probes: Seq<DirProbe>) -> Option<Seq<char>> {
    match first_configured(dirs, probes) {
        Some(dir) => Some(dir),
        None => first_existing(dirs, probes),
    }
}

/// The best of the directories.
pub fn best_discovery_dir(candidates: &Vec<String>, probes: &Vec<DirProbe>) -> (r: Option<String>)
    ensures
        r.deep_view() == best_dir(candidates.deep_view(), probes@),
{
    let ghost all = candidates.deep_view();
    let mut i: usize = 0;
    assert(all.skip(0) =~= all);
    while i < candidates.len()
        invariant
            all == candidates.deep_view(),
            i <= all.len(),
            first_configured(all.skip(i as int), probes@) == first_configured(all, probes@),
        decreases all.len() - i,
    {
        assert(all.skip(i as int).skip(1) =~= all.skip(i + 1));
        assert(all[i as int] == candidates@[i as int]@);
        if nearest_mise_config_dir(candidates[i].as_str(), probes).is_some() {
            return Some(candidates[i].clone());
        }
        i += 1;
    }
    let mut i: usize = 0;
    while i < candidates.len()
        invariant
            all == candidates.deep_view(),
            i <= all.len(),
            first_configured(all, probes@) is None,
            first_existing(all.skip(i as int), probes@) == first_existing(all, probes@),
        decreases all.len() - i,
    {
        assert(all.skip(i as int).skip(1) =~= all.skip(i + 1));
        assert(all[i as int] == candidates@[i as int]@);
        if let Some(probe) = probe_at(probes, candidates[i].as_str()) {
            if probe.is_dir {
                return Some(candidates[i].clone());
            }
        }
        i += 1;
    }
    None
}

/// The directory in which tasks are looked for when a tab gives `initial` or nothing.
pub open spec fn ambient_dir(
    state: AppState,
    initial: Option<Seq<char>>,
    around: Surroundings,
    probes: Seq<DirProbe>,
) -> Seq<char> {
    match best_dir(candidate_dirs(state, initial, around), probes) {
        Some(dir) => dir,
        None => "."@,
    }
}

fn local_discovery_dir(
    state: &AppState,
    initial: Option<String>,
    around: &Surroundings,
    probes: &Vec<DirProbe>,
) -> (r: String)
    ensures
        r@ == ambient_dir(*state, initial.deep_view(), *around, probes@),
{
    let candidates = local_discovery_candidates(state, initial, around);
    match best_discovery_dir(&candidates, probes) {
        Some(dir) => dir,
        None => ".".to_owned(),
    }
}

/// The target of the tab with the focus.
pub open spec fn focused_tab_target(state: AppState, local: Seq<char>) -> Option<TargetView> {
    match state.active_tab_value() {
        Some(tab) => active_tab_target(state, tab.id, local),
        None => None,
    }
}

/// The target of task discovery: that of the tab with the focus, with the best directory
/// around it on this machine; without such a tab the best directory there is.
pub open spec fn best_target(
    state: AppState,
    around: Surroundings,
    probes: Seq<DirProbe>,
) -> TargetView {
    match focused_tab_target(state, around.host_name@) {
        Some(TargetView::Local { cwd, binary_path }) => TargetView::Local {
            cwd: ambient_dir(state, Some(cwd), around, probes),
            binary_path,
        },
        Some(remote) => remote,
        None => TargetView::Local {
            cwd: ambient_dir(state, None, around, probes),
            binary_path: None,
        },
    }
}

/// The target of task discovery.
pub fn discovery_target(
    state: &AppState,
    around: &Surroundings,
    probes: &Vec<DirProbe>,
) -> (r: DiscoveryTarget)
    ensures
        r.deep_view() == best_target(*state, *around, probes@),
{
    let focused = match state.active_tab() {
        Some(tab) => discovery_target_for_tab(state, tab.id, around.host_name.as_str()),
        None => None,
    };
    match focused {
        Some(DiscoveryTarget::Local { cwd, binary_path }) => DiscoveryTarget::Local {
            cwd: local_discovery_dir(state, Some(cwd), around, probes),
            binary_path,
        },
        Some(remote) => remote,
        None => DiscoveryTarget::Local {
            cwd: local_discovery_dir(state, None, around, probes),
            binary_path: None,
        },
    }
}

/// The directory of task discovery on this machine.
pub fn discovery_dir(
    state: &AppState,
    around: &Surroundings,
    probes: &Vec<DirProbe>,
) -> (r: String)
    ensures
        r@ == match best_target(*state, *around, probes@) {
            TargetView::Local { cwd, .. } => cwd,
            TargetView::Remote { .. } => ambient_dir(*state, None, *around, probes@),
        },
{
    match discovery_target(state, around, probes) {
        DiscoveryTarget::Local { cwd, .. } => cwd,
        DiscoveryTarget::Remote { .. } => local_discovery_dir(state, None, around, probes),
    }
}

/// A workspace on this machine is discovered in its checkout, whatever directory its tabs
/// are in.
pub proof fn law_local_workspace_is_discovered_in_its_checkout(
    state: AppState,
    ws: Workspace,
    local: Seq<char>,
)
    requires
        workspace::find_workspace(state.workspaces@, ws.id) == Some(ws),
        ws.host_config_name is None,
        workspace_root(ws) is Some,
    ensures
        workspace_target(state, ws.id, local) == Some(
            TargetView::Local { cwd: workspace_root(ws)->0, binary_path: None },
        ),
{
}

/// A tab of a workspace that has not the focus has no target.
pub proof fn law_inactive_workspaces_have_no_tab_target(
    state: AppState,
    tab_id: u32,
    local: Seq<char>,
)
    requires
        workspace::find_tab_anywhere(state.workspaces@, tab_id) matches Some((ws, tab)) && ws.id
            != state.active_workspace,
    ensures
        active_tab_target(state, tab_id, local) is None,
{
}

/// Without a mise configuration at or above a pane's directory, discovery stays in that
/// directory.
pub proof fn law_discovery_stays_in_the_panes_project(cwd: Seq<char>, probes: Seq<DirProbe>)
    ensures
        nearest_config(cwd, probes) is None ==> scoped_dir(cwd, probes) == cwd,
        nearest_config(cwd, probes) matches Some(dir) ==> paths::ancestors(cwd).contains(scoped_dir(cwd, probes)),
{
    if let Some(probe) = find_probe(probes, cwd) {
        lemma_first_marked(paths::ancestors(cwd), probe.configured@);
    }
}

proof fn lemma_first_marked(dirs: Seq<Seq<char>>, marks: Seq<bool>)
    ensures
        first_marked(dirs, marks) matches Some(dir) ==> dirs.contains(dir),
    decreases dirs.len(),
{
    if dirs.len() > 0 && marks.len() > 0 {
        if marks[0] {
            assert(dirs.contains(dirs[0]));
        } else {
            lemma_first_marked(dirs.skip(1), marks.skip(1));
            if let Some(dir) = first_marked(dirs.skip(1), marks.skip(1)) {
                let i = choose|i: int| 0 <= i < dirs.skip(1).len() && dirs.skip(1)[i] == dir;
                assert(dirs[i + 1] == dir);
            }
        }
    }
}

/// The directory that a pane reports now decides; the directory of the last discovery has
/// no part in the target then, and a target on this machine is that directory.
pub proof fn law_a_reported_directory_decides(
    signals: SignalsView,
    dir: Seq<char>,
    fallback: Option<Seq<char>>,
    other: Option<Seq<char>>,
    binary_path: Option<Seq<char>>,
    local: Seq<char>,
)
    requires
        signals.cwd == Some(dir),
    ensures
        signals.target(fallback, binary_path, local) == signals.target(other, binary_path, local),
        signals.target(fallback, binary_path, local) matches Some(
            TargetView::Local { cwd, binary_path: binary },
        ) ==> cwd == dir && binary == binary_path,
        signals.cwd_host is Some && (signals.target(fallback, binary_path, local) matches Some(
            TargetView::Remote { cwd, .. },
        )) ==> (signals.target(fallback, binary_path, local)->Some_0->Remote_cwd == dir
            || signals.target(fallback, binary_path, local)->Some_0->Remote_cwd == "."@),
{
}

/// A pane that reports no directory is treated as if it reported that of the last discovery.
pub proof fn law_the_last_directory_stands_in(
    signals: SignalsView,
    dir: Seq<char>,
    other: Option<Seq<char>>,
    binary_path: Option<Seq<char>>,
    local: Seq<char>,
)
    requires
        signals.cwd is None,
    ensures
        signals.target(Some(dir), binary_path, local) == (SignalsView {
            cwd: Some(dir),
            ..signals
        }).target(other, binary_path, local),
{
}

/// A plain pane of this machine is discovered where it is, with the binary that is given,
/// whatever SSH arguments were once seen in it; without a directory nothing is discovered.
pub proof fn law_plain_panes_are_discovered_where_they_are(
    dir: Option<Seq<char>>,
    ssh_command: Option<Seq<Seq<char>>>,
    binary_path: Option<Seq<char>>,
    local: Seq<char>,
)
    ensures
        ({
            let signals = SignalsView { cwd: dir, cwd_host: None, ssh_command, remote_shell: false };
            &&& dir is Some ==> signals.target(None, binary_path, local) == Some(
                TargetView::Local { cwd: dir->0, binary_path },
            )
            &&& dir is None ==> signals.target(None, binary_path, local) is None
        }),
{
}

/// A shell that reports this machine's own name is on this machine.
pub proof fn law_a_shell_of_this_machine_is_local(
    dir: Seq<char>,
    ssh_command: Option<Seq<Seq<char>>>,
    fallback: Option<Seq<char>>,
    binary_path: Option<Seq<char>>,
    local: Seq<char>,
)
    requires
        text::trimmed(local) == local,
    ensures
        (SignalsView {
            cwd: Some(dir),
            cwd_host: Some(local),
            ssh_command,
            remote_shell: false,
        }).target(fallback, binary_path, local) == Some(
            TargetView::Local { cwd: dir, binary_path },
        ),
{
}

/// A shell that reports another host is discovered there, in its directory, over the SSH
/// client that runs in the pane where that takes commands, and else over a plain one.
pub proof fn law_a_reported_host_is_discovered_there(
    dir: Seq<char>,
    host: Seq<char>,
    ssh_command: Option<Seq<Seq<char>>>,
    remote_shell: bool,
    fallback: Option<Seq<char>>,
    binary_path: Option<Seq<char>>,
    local: Seq<char>,
)
    requires
        text::trimmed(host) == host,
        host.len() > 0,
        !names_this_machine(host, local),
    ensures
        ({
            let signals = SignalsView {
                cwd: Some(dir),
                cwd_host: Some(host),
                ssh_command,
                remote_shell,
            };
            &&& signals.target(fallback, binary_path, local) matches Some(
                TargetView::Remote { host: h, cwd, ssh_argv },
            )
            &&& h == host
            &&& cwd == dir
            &&& ssh_command is None ==> ssh_argv == seq!["ssh"@, host]
            &&& ssh_command is Some && ssh_command->0.len() > 0 && ssh_command->0[0] == "ssh"@
                ==> ssh_argv == ssh_command->0
            &&& ssh_argv == seq!["ssh"@, host] || Some(ssh_argv) == ssh_command
        }),
{
    if let Some(argv) = ssh_command {
        if argv.len() > 0 && argv[0] == "ssh"@ {
            remote::lemma_ssh_takes_commands(argv);
        }
    }
}

/// A pane that runs an SSH client to another host is discovered at that host, in the
/// directory that the login there leads to.
pub proof fn law_an_ssh_client_is_followed(
    dir: Option<Seq<char>>,
    host: Seq<char>,
    fallback: Option<Seq<char>>,
    binary_path: Option<Seq<char>>,
    local: Seq<char>,
)
    requires
        text::trimmed(host) == host,
        host.len() > 0,
        host[0] != '-',
        forall|i: int| 0 <= i < host.len() ==> host[i] != '@',
        !names_this_machine(host, local),
    ensures
        (SignalsView {
            cwd: dir,
            cwd_host: None,
            ssh_command: Some(seq!["ssh"@, host]),
            remote_shell: true,
        }).target(fallback, binary_path, local) == Some(
            TargetView::Remote { host, cwd: "."@, ssh_argv: seq!["ssh"@, host] },
        ),
{
    let argv = seq!["ssh"@, host];
    remote::lemma_ssh_takes_commands(argv);
    text::lemma_no_separator(host, '@');
    assert(remote::destination(argv) == Some(1int));
    assert(remote::destination_host(argv) == Some(host));
}

/// The loopback names are this machine, and so is the machine's own name, whatever the case
/// of its letters or the domain behind it; a name with another first label is not.
pub proof fn law_names_of_this_machine(name: Seq<char>, domain: Seq<char>, local: Seq<char>)
    ensures
        names_this_machine("localhost"@, local),
        names_this_machine("LocalHost"@, local),
        names_this_machine("127.0.0.1"@, local),
        names_this_machine("::1"@, local),
        names_this_machine(""@, local),
        text::trimmed(local) == local ==> names_this_machine(local, local),
        text::trimmed(name + "."@ + domain) == name + "."@ + domain && text::before_first(
            name,
            '.',
        ) == name ==> names_this_machine(name + "."@ + domain, name),
        text::trimmed(name) == name && name.len() > 0 && text::before_first(name, '.').len()
            != text::before_first(local, '.').len() && name.len() != 9 && name.len() != 3
            ==> !names_this_machine(name, local),
{
    reveal_strlit("localhost");
    reveal_strlit("LocalHost");
    reveal_strlit("127.0.0.1");
    reveal_strlit("::1");
    reveal_strlit("");
    reveal_strlit(".");
    text::lemma_trimmed_plain("localhost"@);
    text::lemma_trimmed_plain("LocalHost"@);
    text::lemma_trimmed_plain("127.0.0.1"@);
    text::lemma_trimmed_plain("::1"@);
    assert(text::ascii_lowered("LocalHost"@) =~= text::ascii_lowered("localhost"@));
    assert(text::ascii_lowered(text::before_first(name, '.')).len() == text::before_first(
        name,
        '.',
    ).len());
    assert(text::ascii_lowered(text::before_first(local, '.')).len() == text::before_first(
        local,
        '.',
    ).len());
    assert(text::ascii_lowered(name).len() == name.len());
    assert(text::ascii_lowered("localhost"@).len() == 9);
    let long = name + "."@ + domain;
    if text::before_first(name, '.') == name {
        text::lemma_before_first_of(name, domain, '.');
        assert(long =~= name + seq!['.'] + domain);
    }
}

/// What a pane's own shell reports comes before what tmux reports of it; blank reports count
/// as none, and reports are taken without the white space around them.
pub proof fn law_the_shell_comes_before_tmux(leaf: PaneLeaf)
    ensures
        leaf.location_state.cwd matches Some(cwd) && text::trimmed(cwd@).len() > 0 ==> leaf_dir(
            leaf,
        ) == Some(text::trimmed(leaf.location_state.cwd->0@)),
        leaf.location_state.cwd is None && leaf.tmux_backing is None ==> leaf_dir(leaf) is None,
        leaf.location_state.cwd is None && (leaf.tmux_backing matches Some(backing)
            && backing.pane_info.value is Some && text::trimmed(
            backing.pane_info.value->0.cwd@,
        ).len() > 0) ==> leaf_dir(leaf) == Some(
            text::trimmed(leaf.tmux_backing->0.pane_info.value->0.cwd@),
        ),
        leaf.location_state.cwd_host matches Some(host) && text::trimmed(host@).len() > 0
            ==> leaf_host(leaf) == Some(text::trimmed(leaf.location_state.cwd_host->0@)),
        leaf.location_state.cwd_host is None && leaf.tmux_backing is None ==> leaf_host(leaf) is None,
        leaf.location_state.cwd_host is None && (leaf.tmux_backing matches Some(backing)
            && backing.target is Remote) ==> leaf_host(leaf) == Some(
            leaf.tmux_backing->0.target->Remote_ssh_target@,
        ),
        SignalsView::of_leaf(leaf).remote_shell == leaf.process_state.remote_shell,
        SignalsView::of_leaf(leaf).ssh_command == leaf.process_state.ssh_command.deep_view(),
        SignalsView::of_leaf(leaf).cwd == leaf_dir(leaf),
        SignalsView::of_leaf(leaf).cwd_host == leaf_host(leaf),
{
}

/// The pane with the focus speaks for its tab, and the first pane where no pane has it.
pub proof fn law_the_focused_pane_speaks_for_its_tab(tab: Tab, i: int)
    requires
        0 <= i < tab.panes.live().len(),
        tab.panes.live()[i].pane_id == tab.focused_pane_id,
        forall|j: int| 0 <= j < i ==> (#[trigger] tab.panes.live()[j]).pane_id
            != tab.focused_pane_id,
    ensures
        tab_signals(tab) == SignalsView::of_leaf(tab.panes.live()[i]),
{
    crate::pane::lemma_first_with_id(tab.panes.live(), tab.focused_pane_id, i);
}

/// Why a pane leads nowhere: any trace of a remote session makes it a remote one that could
/// not be followed.
pub proof fn law_remote_traces_are_told(signals: SignalsView, local: Seq<char>)
    ensures
        signals.remote_shell ==> signals.failure(local)
            == DiscoveryTargetFailure::UnresolvedRemoteContext,
        (signals.ssh_command matches Some(argv) && argv.len() > 0) ==> signals.failure(local)
            == DiscoveryTargetFailure::UnresolvedRemoteContext,
        !signals.remote_shell && signals.ssh_command is None && signals.cwd_host is None
            ==> signals.failure(local) == DiscoveryTargetFailure::NoWorkingDirectory,
        !signals.remote_shell && signals.ssh_command is None && (signals.cwd_host matches Some(host)
            && names_this_machine(text::trimmed(host), local)) ==> signals.failure(local)
            == DiscoveryTargetFailure::NoWorkingDirectory,
        (signals.cwd_host matches Some(host) && text::trimmed(host).len() > 0
            && !names_this_machine(text::trimmed(host), local)) ==> signals.failure(local)
            == DiscoveryTargetFailure::UnresolvedRemoteContext,
{
}

/// Two targets have the same tasks exactly where they are the same directory of the same
/// machine, reached in the same way; the binary has no part in it. Labels show the place and
/// never the SSH arguments.
pub proof fn law_task_targets(
    a: Seq<char>,
    b: Seq<char>,
    host: Seq<char>,
    other_host: Seq<char>,
    argv: Seq<Seq<char>>,
    other_argv: Seq<Seq<char>>,
    bin: Option<Seq<char>>,
    other_bin: Option<Seq<char>>,
)
    ensures
        (TargetView::Local { cwd: a, binary_path: bin }).key() == (TargetView::Local {
            cwd: b,
            binary_path: other_bin,
        }).key() <==> a == b,
        (TargetView::Remote { host, cwd: a, ssh_argv: argv }).key() == (TargetView::Remote {
            host: other_host,
            cwd: b,
            ssh_argv: other_argv,
        }).key() <==> host == other_host && a == b && argv == other_argv,
        (TargetView::Local { cwd: a, binary_path: bin }).key() != (TargetView::Remote {
            host,
            cwd: b,
            ssh_argv: argv,
        }).key(),
        (TargetView::Local { cwd: a, binary_path: bin }).label() == "local project "@ + a,
        (TargetView::Remote { host, cwd: a, ssh_argv: argv }).label() == "remote project "@ + host
            + ":"@ + a,
        (TargetView::Local { cwd: a, binary_path: bin }).dir() == a,
        (TargetView::Remote { host, cwd: a, ssh_argv: argv }).dir() == a,
{
}

/// The probe of a path is the first with it.
proof fn lemma_first_probe(probes: Seq<DirProbe>, path: Seq<char>, i: int)
    requires
        0 <= i < probes.len(),
        probes[i].path@ == path,
        forall|j: int| 0 <= j < i ==> (#[trigger] probes[j]).path@ != path,
    ensures
        find_probe(probes, path) == Some(probes[i]),
    decreases probes.len(),
{
    if i > 0 {
        let rest = probes.skip(1);
        assert(probes[0].path@ != path);
        assert(rest[i - 1] == probes[i]);
        assert forall|j: int| 0 <= j < i - 1 implies (#[trigger] rest[j]).path@ != path by {
            assert(rest[j] == probes[j + 1]);
        }
        lemma_first_probe(rest, path, i - 1);
    }
}

/// The first marked directory.
proof fn lemma_first_mark(dirs: Seq<Seq<char>>, marks: Seq<bool>, i: int)
    requires
        0 <= i < dirs.len(),
        i < marks.len(),
        marks[i],
        forall|j: int| 0 <= j < i ==> !(#[trigger] marks[j]),
    ensures
        first_marked(dirs, marks) == Some(dirs[i]),
    decreases dirs.len(),
{
    if i > 0 {
        assert(!marks[0]);
        assert(dirs.skip(1)[i - 1] == dirs[i]);
        assert(marks.skip(1)[i - 1] == marks[i]);
        assert forall|j: int| 0 <= j < i - 1 implies !(#[trigger] marks.skip(1)[j]) by {
            assert(marks.skip(1)[j] == marks[j + 1]);
        }
        lemma_first_mark(dirs.skip(1), marks.skip(1), i - 1);
    }
}

/// Without a mark there is no marked directory.
proof fn lemma_no_mark(dirs: Seq<Seq<char>>, marks: Seq<bool>)
    requires
        forall|j: int| 0 <= j < marks.len() ==> !(#[trigger] marks[j]),
    ensures
        first_marked(dirs, marks) is None,
    decreases dirs.len(),
{
    if dirs.len() > 0 && marks.len() > 0 {
        assert(!marks[0]);
        assert forall|j: int| 0 <= j < marks.skip(1).len() implies !(#[trigger] marks.skip(1)[j]) by {
            assert(marks.skip(1)[j] == marks[j + 1]);
        }
        lemma_no_mark(dirs.skip(1), marks.skip(1));
    }
}

/// The project of a directory is the nearest one above it that mise is configured in; a
/// directory without one, or one that is not there, is its own.
pub proof fn law_the_nearest_configuration_counts(
    dir: Seq<char>,
    probes: Seq<DirProbe>,
    p: int,
    i: int,
)
    requires
        0 <= p < probes.len(),
        probes[p].path@ == dir,
        forall|j: int| 0 <= j < p ==> (#[trigger] probes[j]).path@ != dir,
    ensures
        probes[p].is_dir && 0 <= i < probes[p].configured@.len() && i < paths::ancestors(dir).len()
            && probes[p].configured@[i] && (forall|j: int|
            0 <= j < i ==> !(#[trigger] probes[p].configured@[j])) ==> scoped_dir(dir, probes)
            == paths::ancestors(dir)[i] && nearest_config(dir, probes) == Some(
            paths::ancestors(dir)[i],
        ),
        !probes[p].is_dir ==> scoped_dir(dir, probes) == dir && nearest_config(dir, probes) is None,
        (forall|j: int| 0 <= j < probes[p].configured@.len() ==> !(
        #[trigger] probes[p].configured@[j])) ==> scoped_dir(dir, probes) == dir && nearest_config(
            dir,
            probes,
        ) is None,
{
    lemma_first_probe(probes, dir, p);
    let marks = probes[p].configured@;
    if probes[p].is_dir && 0 <= i < marks.len() && i < paths::ancestors(dir).len() && marks[i] && (
    forall|j: int| 0 <= j < i ==> !(#[trigger] marks[j])) {
        lemma_first_mark(paths::ancestors(dir), marks, i);
    }
    if forall|j: int| 0 <= j < marks.len() ==> !(#[trigger] marks[j]) {
        lemma_no_mark(paths::ancestors(dir), marks);
    }
}

/// The first of the directories that belongs to a configured project is taken, else the
/// first that is there.
pub proof fn law_the_best_directory(dirs: Seq<Seq<char>>, probes: Seq<DirProbe>, k: int)
    requires
        0 <= k < dirs.len(),
    ensures
        nearest_config(dirs[k], probes) is Some && (forall|j: int|
            0 <= j < k ==> nearest_config(#[trigger] dirs[j], probes) is None) ==> best_dir(
            dirs,
            probes,
        ) == Some(dirs[k]),
        (forall|j: int| 0 <= j < dirs.len() ==> nearest_config(#[trigger] dirs[j], probes) is None)
            && is_existing_dir(dirs[k], probes) && (forall|j: int|
            0 <= j < k ==> !is_existing_dir(#[trigger] dirs[j], probes)) ==> best_dir(dirs, probes)
            == Some(dirs[k]),
        (forall|j: int| 0 <= j < dirs.len() ==> !is_existing_dir(#[trigger] dirs[j], probes))
            ==> best_dir(dirs, probes) is None,
{
    lemma_first_configured(dirs, probes, k);
    lemma_first_existing(dirs, probes, k);
    if forall|j: int| 0 <= j < dirs.len() ==> !is_existing_dir(#[trigger] dirs[j], probes) {
        assert forall|j: int| 0 <= j < dirs.len() implies nearest_config(#[trigger] dirs[j], probes)
            is None by {
            assert(!is_existing_dir(dirs[j], probes));
        }
    }
}

proof fn lemma_first_configured(dirs: Seq<Seq<char>>, probes: Seq<DirProbe>, k: int)
    requires
        0 <= k < dirs.len(),
    ensures
        nearest_config(dirs[k], probes) is Some && (forall|j: int|
            0 <= j < k ==> nearest_config(#[trigger] dirs[j], probes) is None) ==> first_configured(
            dirs,
            probes,
        ) == Some(dirs[k]),
        (forall|j: int| 0 <= j < dirs.len() ==> nearest_config(#[trigger] dirs[j], probes) is None)
            ==> first_configured(dirs, probes) is None,
    decreases dirs.len(),
{
    let rest = dirs.skip(1);
    if forall|j: int| 0 <= j < dirs.len() ==> nearest_config(#[trigger] dirs[j], probes) is None {
        assert(nearest_config(dirs[0], probes) is None);
        assert forall|j: int| 0 <= j < rest.len() implies nearest_config(#[trigger] rest[j], probes)
            is None by {
            assert(rest[j] == dirs[j + 1]);
        }
        if rest.len() > 0 {
            lemma_first_configured(rest, probes, 0);
        }
    } else if k > 0 && nearest_config(dirs[k], probes) is Some && (forall|j: int|
        0 <= j < k ==> nearest_config(#[trigger] dirs[j], probes) is None) {
        assert(nearest_config(dirs[0], probes) is None);
        assert(rest[k - 1] == dirs[k]);
        assert forall|j: int| 0 <= j < k - 1 implies nearest_config(#[trigger] rest[j], probes)
            is None by {
            assert(rest[j] == dirs[j + 1]);
        }
        lemma_first_configured(rest, probes, k - 1);
    }
}

proof fn lemma_first_existing(dirs: Seq<Seq<char>>, probes: Seq<DirProbe>, k: int)
    requires
        0 <= k < dirs.len(),
    ensures
        is_existing_dir(dirs[k], probes) && (forall|j: int|
            0 <= j < k ==> !is_existing_dir(#[trigger] dirs[j], probes)) ==> first_existing(
            dirs,
            probes,
        ) == Some(dirs[k]),
        (forall|j: int| 0 <= j < dirs.len() ==> !is_existing_dir(#[trigger] dirs[j], probes))
            ==> first_existing(dirs, probes) is None,
    decreases dirs.len(),
{
    let rest = dirs.skip(1);
    if forall|j: int| 0 <= j < dirs.len() ==> !is_existing_dir(#[trigger] dirs[j], probes) {
        assert(!is_existing_dir(dirs[0], probes));
        assert forall|j: int| 0 <= j < rest.len() implies !is_existing_dir(#[trigger] rest[j], probes) by {
            assert(rest[j] == dirs[j + 1]);
        }
        if rest.len() > 0 {
            lemma_first_existing(rest, probes, 0);
        }
    } else if k > 0 && is_existing_dir(dirs[k], probes) && (forall|j: int|
        0 <= j < k ==> !is_existing_dir(#[trigger] dirs[j], probes)) {
        assert(!is_existing_dir(dirs[0], probes));
        assert(rest[k - 1] == dirs[k]);
        assert forall|j: int| 0 <= j < k - 1 implies !is_existing_dir(#[trigger] rest[j], probes) by {
            assert(rest[j] == dirs[j + 1]);
        }
        lemma_first_existing(rest, probes, k - 1);
    }
}

/// Where a directory is looked for without a tab: where one was given, then the repository of
/// the workspace with the focus, the program's own directory, and the home; where none of
/// them is there, the program's own one.
pub proof fn law_places_without_a_tab(
    state: AppState,
    initial: Option<Seq<char>>,
    around: Surroundings,
    probes: Seq<DirProbe>,
)
    ensures
        ({
            let dirs = candidate_dirs(state, initial, around);
            let given = if initial is Some {
                1int
            } else {
                0
            };
            let repo = match state.active_workspace_value() {
                Some(ws) => ws.repo_root.deep_view(),
                None => None,
            };
            let known = if repo is Some {
                1int
            } else {
                0
            };
            let here = if around.current_dir is Some {
                1int
            } else {
                0
            };
            &&& initial is Some ==> dirs[0] == initial->0
            &&& repo is Some ==> dirs[given] == repo->0
            &&& around.current_dir is Some ==> dirs[given + known] == around.current_dir->0@
            &&& around.home is Some ==> dirs[given + known + here] == around.home->0@
            &&& dirs.len() == given + known + here + if around.home is Some {
                1int
            } else {
                0
            }
            &&& best_dir(dirs, probes) matches Some(dir) ==> ambient_dir(
                state,
                initial,
                around,
                probes,
            ) == best_dir(dirs, probes)->0
            &&& best_dir(dirs, probes) is None ==> ambient_dir(state, initial, around, probes)
                == "."@
        }),
{
}

/// The target of a tab is that of its panes, and only in the workspace with the focus. A task
/// is run in the project that the directory belongs to; on a host nothing is looked up.
pub proof fn law_targets_of_tabs(
    state: AppState,
    ws: Workspace,
    tab: Tab,
    probes: Seq<DirProbe>,
    local: Seq<char>,
)
    requires
        workspace::find_tab_anywhere(state.workspaces@, tab.id) == Some((ws, tab)),
        ws.id == state.active_workspace,
    ensures
        ({
            let binary = if state.discovery_binary_paths@.contains_key(tab.id) {
                Some(state.discovery_binary_paths@[tab.id]@)
            } else {
                None
            };
            let found = tab_signals(tab).target(tab.discovery_cwd.deep_view(), binary, local);
            &&& active_tab_target(state, tab.id, local) == found
            &&& found matches Some(TargetView::Remote { .. }) ==> launch_target(
                state,
                tab.id,
                probes,
                local,
            ) == found
            &&& found is None ==> launch_target(state, tab.id, probes, local) is None
            &&& found matches Some(TargetView::Local { cwd, binary_path }) ==> launch_target(
                state,
                tab.id,
                probes,
                local,
            ) == Some(
                TargetView::Local { cwd: scoped_dir(found->0->Local_cwd, probes), binary_path: found->0->Local_binary_path },
            )
        }),
{
}

/// A workspace of a host is discovered through its terminal with the focus, or its first one
/// where a dashboard has it; else, and where there is none, in its checkout.
pub proof fn law_workspaces_of_hosts_are_discovered_through_a_tab(
    state: AppState,
    ws: Workspace,
    local: Seq<char>,
    i: int,
)
    requires
        workspace::find_workspace(state.workspaces@, ws.id) == Some(ws),
        ws.host_config_name is Some,
    ensures
        (forall|j: int| 0 <= j < ws.tabs@.len() ==> (#[trigger] ws.tabs@[j]).kind
            == TabKind::Dashboard) ==> workspace_target(state, ws.id, local) == (
        match workspace_root(ws) {
            Some(cwd) => Some(TargetView::Local { cwd, binary_path: None }),
            None => None,
        }),
        0 <= i < ws.tabs@.len() && ws.tabs@[i].id == ws.active_tab && ws.tabs@[i].kind
            == TabKind::Terminal && (forall|j: int|
            0 <= j < i ==> (#[trigger] ws.tabs@[j]).id != ws.active_tab) && tab_target(
            ws.tabs@[i],
            recorded_binary(state, ws.tabs@[i].id),
            local,
        ) is Some ==> workspace_target(state, ws.id, local) == tab_target(
            ws.tabs@[i],
            recorded_binary(state, ws.tabs@[i].id),
            local,
        ),
        0 <= i < ws.tabs@.len() && ws.tabs@[i].kind == TabKind::Terminal && (forall|j: int|
            0 <= j < i ==> (#[trigger] ws.tabs@[j]).kind == TabKind::Dashboard) && (forall|j: int|
            0 <= j < ws.tabs@.len() ==> (#[trigger] ws.tabs@[j]).id != ws.active_tab || ws.tabs@[j].kind
                == TabKind::Dashboard) && tab_target(
            ws.tabs@[i],
            recorded_binary(state, ws.tabs@[i].id),
            local,
        ) is Some ==> workspace_target(state, ws.id, local) == tab_target(
            ws.tabs@[i],
            recorded_binary(state, ws.tabs@[i].id),
            local,
        ),
{
    let tabs = ws.tabs@;
    lemma_first_terminal(tabs, i);
    lemma_terminal_with_id(tabs, ws.active_tab, i);
}

/// A checkout is the worktree of a workspace, and else its repository.
pub proof fn law_the_checkout_of_a_workspace(ws: Workspace)
    ensures
        ws.working_tree_path matches Some(path) ==> workspace_root(ws) == Some(path@),
        ws.working_tree_path is None && (ws.repo_root matches Some(root)) ==> workspace_root(ws)
            == Some(ws.repo_root->0@),
        ws.working_tree_path is None && ws.repo_root is None ==> workspace_root(ws) is None,
{
}

proof fn lemma_first_terminal(tabs: Seq<Tab>, i: int)
    ensures
        (forall|j: int| 0 <= j < tabs.len() ==> (#[trigger] tabs[j]).kind == TabKind::Dashboard)
            ==> first_terminal(tabs) is None,
        0 <= i < tabs.len() && tabs[i].kind == TabKind::Terminal && (forall|j: int|
            0 <= j < i ==> (#[trigger] tabs[j]).kind == TabKind::Dashboard) ==> first_terminal(tabs)
            == Some(tabs[i]),
    decreases tabs.len(),
{
    if tabs.len() > 0 {
        let rest = tabs.skip(1);
        lemma_first_terminal(rest, i - 1);
        if forall|j: int| 0 <= j < tabs.len() ==> (#[trigger] tabs[j]).kind == TabKind::Dashboard {
            assert(tabs[0].kind == TabKind::Dashboard);
            assert forall|j: int| 0 <= j < rest.len() implies (#[trigger] rest[j]).kind
                == TabKind::Dashboard by {
                assert(rest[j] == tabs[j + 1]);
            }
        }
        if 0 < i < tabs.len() && tabs[i].kind == TabKind::Terminal && (forall|j: int|
            0 <= j < i ==> (#[trigger] tabs[j]).kind == TabKind::Dashboard) {
            assert(tabs[0].kind == TabKind::Dashboard);
            assert(rest[i - 1] == tabs[i]);
            assert forall|j: int| 0 <= j < i - 1 implies (#[trigger] rest[j]).kind
                == TabKind::Dashboard by {
                assert(rest[j] == tabs[j + 1]);
            }
        }
    }
}

proof fn lemma_terminal_with_id(tabs: Seq<Tab>, id: u32, i: int)
    ensures
        (forall|j: int| 0 <= j < tabs.len() ==> (#[trigger] tabs[j]).id != id || tabs[j].kind
            == TabKind::Dashboard) ==> terminal_with_id(tabs, id) is None,
        0 <= i < tabs.len() && tabs[i].id == id && tabs[i].kind == TabKind::Terminal && (forall|
            j: int,
        |
            0 <= j < i ==> (#[trigger] tabs[j]).id != id) ==> terminal_with_id(tabs, id) == Some(
            tabs[i],
        ),
    decreases tabs.len(),
{
    if tabs.len() > 0 {
        let rest = tabs.skip(1);
        lemma_terminal_with_id(rest, id, i - 1);
        if forall|j: int| 0 <= j < tabs.len() ==> (#[trigger] tabs[j]).id != id || tabs[j].kind
            == TabKind::Dashboard {
            assert(tabs[0].id != id || tabs[0].kind == TabKind::Dashboard);
            assert forall|j: int| 0 <= j < rest.len() implies (#[trigger] rest[j]).id != id
                || rest[j].kind == TabKind::Dashboard by {
                assert(rest[j] == tabs[j + 1]);
            }
        }
        if 0 < i < tabs.len() && tabs[i].id == id && tabs[i].kind == TabKind::Terminal && (forall|
            j: int,
        | 0 <= j < i ==> (#[trigger] tabs[j]).id != id) {
            assert(tabs[0].id != id);
            assert(rest[i - 1] == tabs[i]);
            assert forall|j: int| 0 <= j < i - 1 implies (#[trigger] rest[j]).id != id by {
                assert(rest[j] == tabs[j + 1]);
            }
        }
    }
}

/// Without a tab, tasks are looked for around the program; with one, around its directory,
/// or on its host.
pub proof fn law_the_best_target(state: AppState, around: Surroundings, probes: Seq<DirProbe>)
    ensures
        state.active_tab_value() is None ==> best_target(state, around, probes)
            == (TargetView::Local {
            cwd: ambient_dir(state, None, around, probes),
            binary_path: None,
        }),
        state.active_tab_value() matches Some(tab) ==> {
            let tab = state.active_tab_value()->0;
            match active_tab_target(state, tab.id, around.host_name@) {
                Some(TargetView::Remote { host, cwd, ssh_argv }) => best_target(
                    state,
                    around,
                    probes,
                ) == (TargetView::Remote { host, cwd, ssh_argv }),
                Some(TargetView::Local { cwd, binary_path }) => best_target(state, around, probes)
                    == (TargetView::Local {
                    cwd: ambient_dir(state, Some(cwd), around, probes),
                    binary_path,
                }),
                None => best_target(state, around, probes) == (TargetView::Local {
                    cwd: ambient_dir(state, None, around, probes),
                    binary_path: None,
                }),
            }
        },
{
}

} // verus!
