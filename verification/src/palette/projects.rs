//! Opening a registered project: which work is done outside, and what follows from it.

use vstd::prelude::*;
use vstd::string::*;
use crate::mise::remote;
use crate::mise::remote::{remote_shell_respawn_command, ssh_command_with_remote_exec};
use crate::palette::records::{HostConfig, HostView, RegisteredProject};
use crate::text::copy_texts;

verus! {

/// How a project is opened.
pub enum ProjectOpenPlan {
    Local { working_dir: String, tmux: bool },
    Remote {
        host_name: String,
        ssh_target: String,
        /// The command line that connects to the host, where it is not plain SSH.
        connection_argv: Option<Vec<String>>,
        working_dir: String,
        tmux: bool,
    },
    /// A workspace that the Coder command line manages.
    Coder {
        workspace_name: String,
        list_command: Vec<String>,
        create_if_missing: bool,
        create_command: Option<Vec<String>>,
        connect_command: Vec<String>,
    },
}

/// The mathematical value of a [`ProjectOpenPlan`].
pub enum PlanView {
    Local { working_dir: Seq<char>, tmux: bool },
    Remote {
        host_name: Seq<char>,
        ssh_target: Seq<char>,
        connection_argv: Option<Seq<Seq<char>>>,
        working_dir: Seq<char>,
        tmux: bool,
    },
    Coder {
        workspace_name: Seq<char>,
        list_command: Seq<Seq<char>>,
        create_if_missing: bool,
        create_command: Option<Seq<Seq<char>>>,
        connect_command: Seq<Seq<char>>,
    },
}

impl DeepView for ProjectOpenPlan {
    type V = PlanView;

    open spec fn deep_view(&self) -> PlanView {
        match self {
            ProjectOpenPlan::Local { working_dir, tmux } => PlanView::Local {
                working_dir: working_dir@,
                tmux: *tmux,
            },
            ProjectOpenPlan::Remote {
                host_name,
                ssh_target,
                connection_argv,
                working_dir,
                tmux,
            } => PlanView::Remote {
                host_name: host_name@,
                ssh_target: ssh_target@,
                connection_argv: connection_argv.deep_view(),
                working_dir: working_dir@,
                tmux: *tmux,
            },
            ProjectOpenPlan::Coder {
                workspace_name,
                list_command,
                create_if_missing,
                create_command,
                connect_command,
            } => PlanView::Coder {
                workspace_name: workspace_name@,
                list_command: list_command.deep_view(),
                create_if_missing: *create_if_missing,
                create_command: create_command.deep_view(),
                connect_command: connect_command.deep_view(),
            },
        }
    }
}

/// The next step of opening a project.
pub enum ProjectOpenStep {
    /// Checks that tmux can be used on the host; on this machine without one.
    ValidateTmux { host: Option<HostConfig> },
    /// Builds the command line of a shell in a directory on the host.
    BuildRemoteShell {
        ssh_target: String,
        connection_argv: Option<Vec<String>>,
        working_dir: String,
    },
    /// Runs a command that lists the Coder workspaces, and looks for this one.
    ListCoder { command: Vec<String>, workspace_name: String },
    /// Makes the Coder workspace.
    CreateCoder { command: Vec<String> },
    /// Opens a tab with a shell, and notes that the project was opened.
    OpenShellTab { name: String, working_dir: String },
    /// Opens a tab with a tmux session, and notes that the project was opened.
    OpenTmuxTab { name: String, working_dir: String, host: Option<HostConfig> },
    /// Opens a tab with a command, and notes that the project was opened. `location` is
    /// the directory and the host that the pane is in.
    OpenCommandTab { name: String, argv: Vec<String>, location: Option<(String, String)> },
    /// Tells the user why the project was not opened.
    Fail { message: String },
}

/// The mathematical value of a [`ProjectOpenStep`].
pub enum StepView {
    ValidateTmux { host: Option<HostView> },
    BuildRemoteShell {
        ssh_target: Seq<char>,
        connection_argv: Option<Seq<Seq<char>>>,
        working_dir: Seq<char>,
    },
    ListCoder { command: Seq<Seq<char>>, workspace_name: Seq<char> },
    CreateCoder { command: Seq<Seq<char>> },
    OpenShellTab { name: Seq<char>, working_dir: Seq<char> },
    OpenTmuxTab { name: Seq<char>, working_dir: Seq<char>, host: Option<HostView> },
    OpenCommandTab {
        name: Seq<char>,
        argv: Seq<Seq<char>>,
        location: Option<(Seq<char>, Seq<char>)>,
    },
    Fail { message: Seq<char> },
}

impl DeepView for ProjectOpenStep {
    type V = StepView;

    open spec fn deep_view(&self) -> StepView {
        match self {
            ProjectOpenStep::ValidateTmux { host } => StepView::ValidateTmux {
                host: host.deep_view(),
            },
            ProjectOpenStep::BuildRemoteShell {
                ssh_target,
                connection_argv,
                working_dir,
            } => StepView::BuildRemoteShell {
                ssh_target: ssh_target@,
                connection_argv: connection_argv.deep_view(),
                working_dir: working_dir@,
            },
            ProjectOpenStep::ListCoder { command, workspace_name } => StepView::ListCoder {
                command: command.deep_view(),
                workspace_name: workspace_name@,
            },
            ProjectOpenStep::CreateCoder { command } => StepView::CreateCoder {
                command: command.deep_view(),
            },
            ProjectOpenStep::OpenShellTab { name, working_dir } => StepView::OpenShellTab {
                name: name@,
                working_dir: working_dir@,
            },
            ProjectOpenStep::OpenTmuxTab { name, working_dir, host } => StepView::OpenTmuxTab {
                name: name@,
                working_dir: working_dir@,
                host: host.deep_view(),
            },
            ProjectOpenStep::OpenCommandTab { name, argv, location } => StepView::OpenCommandTab {
                name: name@,
                argv: argv.deep_view(),
                location: location.deep_view(),
            },
            ProjectOpenStep::Fail { message } => StepView::Fail { message: message@ },
        }
    }
}

/// What a step that was carried out brought.
pub enum ProjectOpenEvent {
    TmuxValidated(Result<(), String>),
    ShellBuilt(Result<Vec<String>, String>),
    /// The command that lists the Coder workspaces failed.
    CoderListFailed,
    /// Whether the Coder workspace is listed; an error where the list could not be read.
    CoderListed(Result<bool, String>),
    CoderCreated(Result<(), String>),
    /// The worker that asks and makes the Coder workspace was lost.
    CoderWorkerLost,
}

/// The refusal to open a project.
pub open spec fn failed(error: Seq<char>) -> StepView {
    StepView::Fail { message: "Could not open project: "@ + error }
}

/// The host of a plan.
pub open spec fn plan_host(plan: PlanView) -> Option<HostView> {
    match plan {
        PlanView::Remote { host_name, ssh_target, .. } => Some(
            HostView { name: host_name, ssh_target: Some(ssh_target) },
        ),
        _ => None,
    }
}

/// The first step of a plan.
pub open spec fn first_step(name: Seq<char>, plan: PlanView) -> StepView {
    match plan {
        PlanView::Local { working_dir, tmux } => if tmux {
            StepView::ValidateTmux { host: None }
        } else {
            StepView::OpenShellTab { name, working_dir }
        },
        PlanView::Remote { ssh_target, connection_argv, working_dir, tmux, .. } => if tmux {
            StepView::ValidateTmux { host: plan_host(plan) }
        } else {
            StepView::BuildRemoteShell { ssh_target, connection_argv, working_dir }
        },
        PlanView::Coder { workspace_name, list_command, .. } => StepView::ListCoder {
            command: list_command,
            workspace_name,
        },
    }
}

/// The tab of a Coder workspace.
pub open spec fn coder_tab(name: Seq<char>, connect_command: Seq<Seq<char>>) -> StepView {
    StepView::OpenCommandTab { name, argv: connect_command, location: None }
}

/// The step that follows what a step brought. An event that the plan does not wait for
/// refuses the project.
pub open spec fn next_step(name: Seq<char>, plan: PlanView, event: ProjectOpenEvent) -> StepView {
    match (plan, event) {
        (_, ProjectOpenEvent::TmuxValidated(Err(error))) => failed(error@),
        (_, ProjectOpenEvent::ShellBuilt(Err(error))) => failed(error@),
        (_, ProjectOpenEvent::CoderListed(Err(error))) => failed(error@),
        (_, ProjectOpenEvent::CoderCreated(Err(error))) => failed(error@),
        (_, ProjectOpenEvent::CoderListFailed) => failed("coder list failed"@),
        (_, ProjectOpenEvent::CoderWorkerLost) => failed("Coder project preflight failed"@),
        (
            PlanView::Local { working_dir, tmux: true },
            ProjectOpenEvent::TmuxValidated(Ok(_)),
        ) => StepView::OpenTmuxTab { name, working_dir, host: None },
        (
            PlanView::Remote { working_dir, tmux: true, .. },
            ProjectOpenEvent::TmuxValidated(Ok(_)),
        ) => StepView::OpenTmuxTab { name, working_dir, host: plan_host(plan) },
        (
            PlanView::Remote { host_name, working_dir, tmux: false, .. },
            ProjectOpenEvent::ShellBuilt(Ok(argv)),
        ) => StepView::OpenCommandTab {
            name,
            argv: argv.deep_view(),
            location: Some((working_dir, host_name)),
        },
        (
            PlanView::Coder { create_if_missing, create_command, connect_command, .. },
            ProjectOpenEvent::CoderListed(Ok(exists_already)),
        ) => if exists_already {
            coder_tab(name, connect_command)
        } else if !create_if_missing {
            failed("Coder workspace is missing and guarded creation is disabled"@)
        } else {
            match create_command {
                Some(command) => StepView::CreateCoder { command },
                None => failed("guarded Coder creation requires a template"@),
            }
        },
        (
            PlanView::Coder { connect_command, .. },
            ProjectOpenEvent::CoderCreated(Ok(_)),
        ) => coder_tab(name, connect_command),
        _ => failed("unexpected result"@),
    }
}

/// The refusal to open a project.
fn fail(error: &str) -> (r: ProjectOpenStep)
    ensures
        r.deep_view() == failed(error@),
{
    let mut message = "Could not open project: ".to_owned();
    message.append(error);
    ProjectOpenStep::Fail { message }
}

/// The host of a plan.
fn host_of_plan(plan: &ProjectOpenPlan) -> (r: Option<HostConfig>)
    ensures
        r.deep_view() == plan_host(plan.deep_view()),
{
    match plan {
        ProjectOpenPlan::Remote { host_name, ssh_target, .. } => Some(
            HostConfig { name: host_name.clone(), ssh_target: Some(ssh_target.clone()) },
        ),
        _ => None,
    }
}

/// The first step of opening a project, whose plan may have failed.
pub fn open_registered_project(
    project: &RegisteredProject,
    plan: &Result<ProjectOpenPlan, String>,
) -> (r: ProjectOpenStep)
    ensures
        r.deep_view() == match *plan {
            Ok(plan) => first_step(project.display_name@, plan.deep_view()),
            Err(error) => failed(error@),
        },
{
    match plan {
        Err(error) => fail(error.as_str()),
        Ok(plan) => match plan {
            ProjectOpenPlan::Local { working_dir, tmux } => {
                if *tmux {
                    ProjectOpenStep::ValidateTmux { host: None }
                } else {
                    ProjectOpenStep::OpenShellTab {
                        name: project.display_name.clone(),
                        working_dir: working_dir.clone(),
                    }
                }
            },
            ProjectOpenPlan::Remote { ssh_target, connection_argv, working_dir, tmux, .. } => {
                if *tmux {
                    ProjectOpenStep::ValidateTmux { host: host_of_plan(plan) }
                } else {
                    ProjectOpenStep::BuildRemoteShell {
                        ssh_target: ssh_target.clone(),
                        connection_argv: match connection_argv {
                            Some(argv) => Some(copy_texts(argv)),
                            None => None,
                        },
                        working_dir: working_dir.clone(),
                    }
                }
            },
            ProjectOpenPlan::Coder {
                workspace_name,
                list_command,
                ..
            } => ProjectOpenStep::ListCoder {
                command: copy_texts(list_command),
                workspace_name: workspace_name.clone(),
            },
        },
    }
}

/// The tab of a Coder workspace.
fn open_coder_tab(name: &str, connect_command: &Vec<String>) -> (r: ProjectOpenStep)
    ensures
        r.deep_view() == coder_tab(name@, connect_command.deep_view()),
{
    ProjectOpenStep::OpenCommandTab {
        name: name.to_owned(),
        argv: copy_texts(connect_command),
        location: None,
    }
}

/// The step of opening a project that follows what the last one brought.
pub fn continue_project_open(
    project: &RegisteredProject,
    plan: &ProjectOpenPlan,
    event: &ProjectOpenEvent,
) -> (r: ProjectOpenStep)
    ensures
        r.deep_view() == next_step(project.display_name@, plan.deep_view(), *event),
{
    let name = project.display_name.as_str();
    match event {
        ProjectOpenEvent::TmuxValidated(Err(error)) => fail(error.as_str()),
        ProjectOpenEvent::ShellBuilt(Err(error)) => fail(error.as_str()),
        ProjectOpenEvent::CoderListed(Err(error)) => fail(error.as_str()),
        ProjectOpenEvent::CoderCreated(Err(error)) => fail(error.as_str()),
        ProjectOpenEvent::CoderListFailed => fail("coder list failed"),
        ProjectOpenEvent::CoderWorkerLost => fail("Coder project preflight failed"),
        ProjectOpenEvent::TmuxValidated(Ok(_)) => match plan {
            ProjectOpenPlan::Local { working_dir, tmux: true } => ProjectOpenStep::OpenTmuxTab {
                name: name.to_owned(),
                working_dir: working_dir.clone(),
                host: None,
            },
            ProjectOpenPlan::Remote {
                working_dir,
                tmux: true,
                ..
            } => ProjectOpenStep::OpenTmuxTab {
                name: name.to_owned(),
                working_dir: working_dir.clone(),
                host: host_of_plan(plan),
            },
            _ => fail("unexpected result"),
        },
        ProjectOpenEvent::ShellBuilt(Ok(argv)) => match plan {
            ProjectOpenPlan::Remote {
                host_name,
                working_dir,
                tmux: false,
                ..
            } => ProjectOpenStep::OpenCommandTab {
                name: name.to_owned(),
                argv: copy_texts(argv),
                location: Some((working_dir.clone(), host_name.clone())),
            },
            _ => fail("unexpected result"),
        },
        ProjectOpenEvent::CoderListed(Ok(exists_already)) => match plan {
            ProjectOpenPlan::Coder { create_if_missing, create_command, connect_command, .. } => {
                if *exists_already {
                    open_coder_tab(name, connect_command)
                } else if !*create_if_missing {
                    fail("Coder workspace is missing and guarded creation is disabled")
                } else {
                    match create_command {
                        Some(command) => ProjectOpenStep::CreateCoder {
                            command: copy_texts(command),
                        },
                        None => fail("guarded Coder creation requires a template"),
                    }
                }
            },
            _ => fail("unexpected result"),
        },
        ProjectOpenEvent::CoderCreated(Ok(_)) => match plan {
            ProjectOpenPlan::Coder { connect_command, .. } => open_coder_tab(name, connect_command),
            _ => fail("unexpected result"),
        },
    }
}

/// The command line that connects to a host.
pub open spec fn connection_line(
    ssh_target: Seq<char>,
    connection_argv: Option<Seq<Seq<char>>>,
) -> Seq<Seq<char>> {
    match connection_argv {
        Some(argv) => argv,
        None => seq!["ssh"@, ssh_target],
    }
}

/// The command line of a shell in a directory on a host; an error where the host cannot be
/// given a command.
pub fn remote_shell_argv(
    ssh_target: &str,
    connection_argv: &Option<Vec<String>>,
    working_dir: &str,
) -> (r: Result<Vec<String>, &'static str>)
    ensures
        ({
            let line = remote::remote_exec(
                connection_line(ssh_target@, connection_argv.deep_view()),
                remote::respawn_command(working_dir@),
                true,
                Seq::empty(),
            );
            &&& r is Ok <==> line is Some
            &&& (r matches Ok(argv) ==> argv.deep_view() == line->0)
            &&& (r matches Err(message) ==> message@ == "the host cannot run commands"@)
        }),
{
    let line = match connection_argv {
        Some(argv) => copy_texts(argv),
        None => vec!["ssh".to_owned(), ssh_target.to_owned()],
    };
    assert(line.deep_view() =~= connection_line(ssh_target@, connection_argv.deep_view()));
    let command = remote_shell_respawn_command(working_dir);
    let extra: [&str; 0] = [];
    assert(extra.deep_view() =~= Seq::<Seq<char>>::empty());
    match ssh_command_with_remote_exec(&line, command, true, &extra) {
        Some(argv) => Ok(argv),
        None => Err("the host cannot run commands"),
    }
}

/// Whether a step opens the project's tab.
pub open spec fn opens_tab(step: StepView) -> bool {
    step is OpenShellTab || step is OpenTmuxTab || step is OpenCommandTab
}

/// Work that failed never opens a tab, and a Coder workspace is made only where the plan
/// allows it.
pub proof fn law_failures_open_nothing(name: Seq<char>, plan: PlanView, event: ProjectOpenEvent)
    ensures
        (event matches ProjectOpenEvent::TmuxValidated(Err(_))) ==> next_step(
            name,
            plan,
            event,
        ) is Fail,
        (event matches ProjectOpenEvent::ShellBuilt(Err(_))) ==> next_step(
            name,
            plan,
            event,
        ) is Fail,
        (event matches ProjectOpenEvent::CoderListed(Err(_))) ==> next_step(
            name,
            plan,
            event,
        ) is Fail,
        (event matches ProjectOpenEvent::CoderCreated(Err(_))) ==> next_step(
            name,
            plan,
            event,
        ) is Fail,
        event is CoderListFailed || event is CoderWorkerLost ==> next_step(
            name,
            plan,
            event,
        ) is Fail,
        next_step(name, plan, event) is CreateCoder ==> (plan matches PlanView::Coder {
            create_if_missing,
            ..
        } && create_if_missing),
        next_step(name, plan, event) is Fail || opens_tab(next_step(name, plan, event))
            || next_step(name, plan, event) is CreateCoder,
{
}

/// The next step of connecting to a host.
pub enum HostConnectStep {
    /// Checks that tmux can be used on the host.
    ValidateTmux { host: HostConfig },
    /// Opens a tab with a tmux session on the host.
    OpenTmuxTab { name: String, host: HostConfig },
    /// Tells the user why there is no connection.
    Fail { message: String },
}

/// The mathematical value of a [`HostConnectStep`].
pub enum ConnectStepView {
    ValidateTmux { host: HostView },
    OpenTmuxTab { name: Seq<char>, host: HostView },
    Fail { message: Seq<char> },
}

impl DeepView for HostConnectStep {
    type V = ConnectStepView;

    open spec fn deep_view(&self) -> ConnectStepView {
        match self {
            HostConnectStep::ValidateTmux { host } => ConnectStepView::ValidateTmux {
                host: host.deep_view(),
            },
            HostConnectStep::OpenTmuxTab { name, host } => ConnectStepView::OpenTmuxTab {
                name: name@,
                host: host.deep_view(),
            },
            HostConnectStep::Fail { message } => ConnectStepView::Fail { message: message@ },
        }
    }
}

/// The first step of connecting to a host.
pub fn connect_host(host: &HostConfig) -> (r: HostConnectStep)
    ensures
        r.deep_view() == (ConnectStepView::ValidateTmux { host: host.deep_view() }),
{
    HostConnectStep::ValidateTmux { host: host.copy_host() }
}

/// The step of connecting to a host that follows once tmux was checked there: a tab that is
/// named after the host, or what the user is told.
pub fn continue_host_connect(host: &HostConfig, validated: &Result<(), String>) -> (r:
    HostConnectStep)
    ensures
        r.deep_view() == match *validated {
            Ok(_) => ConnectStepView::OpenTmuxTab { name: host.name@, host: host.deep_view() },
            Err(error) => ConnectStepView::Fail {
                message: "Could not connect to "@ + host.name@ + ": "@ + error@,
            },
        },
{
    match validated {
        Ok(_) => HostConnectStep::OpenTmuxTab { name: host.name.clone(), host: host.copy_host() },
        Err(error) => HostConnectStep::Fail { message: connect_host_failure(host, error.as_str()) },
    }
}

/// What the user is told of a host that could not be connected to.
pub fn connect_host_failure(host: &HostConfig, error: &str) -> (r: String)
    ensures
        r@ == "Could not connect to "@ + host.name@ + ": "@ + error@,
{
    let mut r = "Could not connect to ".to_owned();
    r.append(host.name.as_str());
    r.append(": ");
    r.append(error);
    r
}

/// A project that asks for tmux never gets a plain shell: tmux is checked first, on the host
/// of the plan, and a tab with a tmux session there is what follows.
pub proof fn law_tmux_projects_get_tmux(
    name: Seq<char>,
    host_name: Seq<char>,
    ssh_target: Seq<char>,
    connection_argv: Option<Seq<Seq<char>>>,
    working_dir: Seq<char>,
)
    ensures
        ({
            let local = PlanView::Local { working_dir, tmux: true };
            let far = PlanView::Remote {
                host_name,
                ssh_target,
                connection_argv,
                working_dir,
                tmux: true,
            };
            let host = HostView { name: host_name, ssh_target: Some(ssh_target) };
            let checked = ProjectOpenEvent::TmuxValidated(Ok(()));
            &&& first_step(name, local) == (StepView::ValidateTmux { host: None })
            &&& first_step(name, far) == (StepView::ValidateTmux { host: Some(host) })
            &&& next_step(name, local, checked) == (StepView::OpenTmuxTab {
                name,
                working_dir,
                host: None,
            })
            &&& next_step(name, far, checked) == (StepView::OpenTmuxTab {
                name,
                working_dir,
                host: Some(host),
            })
        }),
{
}

/// A plain shell is opened at once only for a project of this machine without tmux, in its
/// directory and under its name.
pub proof fn law_plain_projects_get_a_shell(name: Seq<char>, plan: PlanView)
    ensures
        plan matches PlanView::Local { working_dir, tmux } && !tmux ==> first_step(name, plan) == (
        StepView::OpenShellTab { name, working_dir: plan->Local_working_dir }),
        first_step(name, plan) is OpenShellTab ==> (plan matches PlanView::Local { tmux, .. }
            && !tmux),
        forall|event: ProjectOpenEvent| !(#[trigger] next_step(name, plan, event) is OpenShellTab),
{
}

/// A project on a host without tmux gets a shell there: its command line is built from the
/// connection of the plan, and the tab is known to be in the directory on the host.
pub proof fn law_projects_on_hosts_get_a_shell_there(
    name: Seq<char>,
    host_name: Seq<char>,
    ssh_target: Seq<char>,
    connection_argv: Option<Seq<Seq<char>>>,
    working_dir: Seq<char>,
    argv: Vec<String>,
)
    ensures
        ({
            let plan = PlanView::Remote {
                host_name,
                ssh_target,
                connection_argv,
                working_dir,
                tmux: false,
            };
            &&& first_step(name, plan) == (StepView::BuildRemoteShell {
                ssh_target,
                connection_argv,
                working_dir,
            })
            &&& next_step(name, plan, ProjectOpenEvent::ShellBuilt(Ok(argv))) == (
            StepView::OpenCommandTab {
                name,
                argv: argv.deep_view(),
                location: Some((working_dir, host_name)),
            })
            &&& connection_line(ssh_target, Some(argv.deep_view())) == argv.deep_view()
            &&& connection_line(ssh_target, None) == seq!["ssh"@, ssh_target]
        }),
{
}

/// A Coder workspace is looked for first. One that exists is connected to; a missing one is
/// made where the plan allows it and has a command for it, and then connected to; else the
/// user is told why not.
pub proof fn law_coder_projects(
    name: Seq<char>,
    workspace_name: Seq<char>,
    list_command: Seq<Seq<char>>,
    create_if_missing: bool,
    create_command: Option<Seq<Seq<char>>>,
    connect_command: Seq<Seq<char>>,
    error: String,
)
    ensures
        ({
            let plan = PlanView::Coder {
                workspace_name,
                list_command,
                create_if_missing,
                create_command,
                connect_command,
            };
            let connected = StepView::OpenCommandTab {
                name,
                argv: connect_command,
                location: None,
            };
            let missing = ProjectOpenEvent::CoderListed(Ok(false));
            &&& first_step(name, plan) == (StepView::ListCoder {
                command: list_command,
                workspace_name,
            })
            &&& next_step(name, plan, ProjectOpenEvent::CoderListed(Ok(true))) == connected
            &&& next_step(name, plan, ProjectOpenEvent::CoderCreated(Ok(()))) == connected
            &&& !create_if_missing ==> next_step(name, plan, missing) == (StepView::Fail {
                message: "Could not open project: "@
                    + "Coder workspace is missing and guarded creation is disabled"@,
            })
            &&& create_if_missing && create_command is None ==> next_step(name, plan, missing) == (
            StepView::Fail {
                message: "Could not open project: "@
                    + "guarded Coder creation requires a template"@,
            })
            &&& create_if_missing && create_command is Some ==> next_step(name, plan, missing) == (
            StepView::CreateCoder { command: create_command->0 })
            &&& next_step(name, plan, ProjectOpenEvent::CoderCreated(Err(error))) == (
            StepView::Fail { message: "Could not open project: "@ + error@ })
            &&& next_step(name, plan, ProjectOpenEvent::CoderListed(Err(error))) == (
            StepView::Fail { message: "Could not open project: "@ + error@ })
            &&& next_step(name, plan, ProjectOpenEvent::CoderListFailed) == (StepView::Fail {
                message: "Could not open project: "@ + "coder list failed"@,
            })
            &&& next_step(name, plan, ProjectOpenEvent::CoderWorkerLost) == (StepView::Fail {
                message: "Could not open project: "@ + "Coder project preflight failed"@,
            })
        }),
{
}

/// The user is told why tmux or a shell could not be had.
pub proof fn law_refusals_say_why(name: Seq<char>, plan: PlanView, error: String)
    ensures
        next_step(name, plan, ProjectOpenEvent::TmuxValidated(Err(error))) == (StepView::Fail {
            message: "Could not open project: "@ + error@,
        }),
        next_step(name, plan, ProjectOpenEvent::ShellBuilt(Err(error))) == (StepView::Fail {
            message: "Could not open project: "@ + error@,
        }),
{
}

} // verus!
