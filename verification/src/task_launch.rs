//! Requests to run a task of a project.

use vstd::prelude::*;
use vstd::string::*;
use crate::mise::tasks;
use crate::mise::tasks::{task_post_exit_respawn, task_spawn_config};
use crate::mise::{same_task_target, task_target_label, DiscoveryTarget, TargetView};
use crate::text::{copy_texts, same_text};
use crate::workspace::{ExitRespawn, WorkspaceAction};

verus! {

/// Where a request comes from.
#[derive(Clone, Copy, Debug, PartialEq, Eq, Structural)]
pub enum TaskLaunchSurface {
    Palette,
    BindableAction,
}

/// The tasks that discovery found, with the place where it found them.
pub struct TaskDiscoverySnapshot {
    pub target: DiscoveryTarget,
    pub task_names: Vec<String>,
}

/// The mathematical value of a [`TaskDiscoverySnapshot`].
pub struct SnapshotView {
    pub target: TargetView,
    pub task_names: Seq<Seq<char>>,
}

impl DeepView for TaskDiscoverySnapshot {
    type V = SnapshotView;

    open spec fn deep_view(&self) -> SnapshotView {
        SnapshotView { target: self.target.deep_view(), task_names: self.task_names.deep_view() }
    }
}

impl TaskDiscoverySnapshot {
    /// The tasks found at a place.
    pub fn with_task_names(target: DiscoveryTarget, task_names: Vec<String>) -> (r:
        TaskDiscoverySnapshot)
        ensures
            r.deep_view() == (SnapshotView {
                target: target.deep_view(),
                task_names: task_names.deep_view(),
            }),
    {
        TaskDiscoverySnapshot { target, task_names }
    }

    /// Whether discovery found a task of this name.
    pub fn contains_task(&self, name: &str) -> (r: bool)
        ensures
            r == self.deep_view().task_names.contains(name@),
    {
        let mut i: usize = 0;
        while i < self.task_names.len()
            invariant
                i <= self.task_names.len(),
                forall|k: int| 0 <= k < i ==> self.deep_view().task_names[k] != name@,
            decreases self.task_names.len() - i,
        {
            assert(self.deep_view().task_names[i as int] == self.task_names[i as int]@);
            if same_text(self.task_names[i].as_str(), name) {
                return true;
            }
            i += 1;
        }
        false
    }

    /// Another value of the same content.
    pub fn copy_snapshot(&self) -> (r: TaskDiscoverySnapshot)
        ensures
            r.deep_view() == self.deep_view(),
    {
        TaskDiscoverySnapshot {
            target: self.target.copy_target(),
            task_names: copy_texts(&self.task_names),
        }
    }
}

/// A request to run a task in a tab of its own.
pub struct TaskLaunchRequest {
    pub surface: TaskLaunchSurface,
    /// The tab that the task was offered for.
    pub source_tab_id: u32,
    pub discovery: Option<TaskDiscoverySnapshot>,
    pub task_name: String,
    pub workspace_action: Option<WorkspaceAction>,
}

/// The mathematical value of a [`TaskLaunchRequest`].
pub struct RequestView {
    pub surface: TaskLaunchSurface,
    pub source_tab_id: u32,
    pub discovery: Option<SnapshotView>,
    pub task_name: Seq<char>,
    pub workspace_action: Option<WorkspaceAction>,
}

impl DeepView for TaskLaunchRequest {
    type V = RequestView;

    open spec fn deep_view(&self) -> RequestView {
        RequestView {
            surface: self.surface,
            source_tab_id: self.source_tab_id,
            discovery: self.discovery.deep_view(),
            task_name: self.task_name@,
            workspace_action: self.workspace_action,
        }
    }
}

impl TaskLaunchRequest {
    /// Another value of the same content.
    pub fn copy_request(&self) -> (r: TaskLaunchRequest)
        ensures
            r.deep_view() == self.deep_view(),
    {
        TaskLaunchRequest {
            surface: self.surface,
            source_tab_id: self.source_tab_id,
            discovery: match &self.discovery {
                Some(snapshot) => Some(snapshot.copy_snapshot()),
                None => None,
            },
            task_name: self.task_name.clone(),
            workspace_action: self.workspace_action,
        }
    }
}

/// How a task is run in a tab of its own.
pub struct TaskLaunchPlan {
    pub tab_name: String,
    /// The directory of the command, where it runs on this machine.
    pub working_dir: Option<String>,
    pub argv: Vec<String>,
    /// What follows the task in its pane.
    pub respawn_on_exit: Option<ExitRespawn>,
    pub workspace_action: Option<WorkspaceAction>,
    /// What errors call the project.
    pub target_label: String,
}

/// Why a task is not run.
#[derive(Clone, Copy, Debug, PartialEq, Eq, Structural)]
pub enum TaskLaunchError {
    /// No discovery has been made for the tab.
    NotDiscovered,
    /// The tab has no project any more.
    NoTarget,
    /// The tab is in another project than the one that discovery looked at.
    TargetChanged,
    /// Discovery found no such task.
    UnknownTask,
    /// There is no mise binary on this machine, or no way to the remote project.
    NoCommand,
}

/// Whether this is how the task of a request is run.
pub open spec fn plans(
    plan: TaskLaunchPlan,
    request: RequestView,
    target: TargetView,
    binary: Option<Seq<char>>,
) -> bool {
    &&& plan.tab_name@ == "mise: "@ + request.task_name
    &&& Some((plan.working_dir.deep_view(), plan.argv.deep_view())) == tasks::spawn_config(
        target,
        request.task_name,
        binary,
    )
    &&& plan.respawn_on_exit is Some <==> tasks::post_exit(target) is Some
    &&& plan.respawn_on_exit matches Some(respawn) ==> respawn.working_dir is None && Some(
        respawn.argv.deep_view(),
    ) == tasks::post_exit(target)
    &&& plan.workspace_action == request.workspace_action
    &&& plan.target_label@ == target.label()
}

/// Why the task of a request is not run for a tab whose project is `current`.
pub open spec fn launch_refusal(
    request: RequestView,
    current: Option<TargetView>,
    binary: Option<Seq<char>>,
) -> Option<TaskLaunchError> {
    match (request.discovery, current) {
        (None, _) => Some(TaskLaunchError::NotDiscovered),
        (Some(_), None) => Some(TaskLaunchError::NoTarget),
        (Some(found), Some(target)) => if found.target.key() != target.key() {
            Some(TaskLaunchError::TargetChanged)
        } else if !found.task_names.contains(request.task_name) {
            Some(TaskLaunchError::UnknownTask)
        } else if tasks::spawn_config(target, request.task_name, binary) is None {
            Some(TaskLaunchError::NoCommand)
        } else {
            None
        },
    }
}

impl TaskLaunchRequest {
    /// How the task is run. `current` is the project that the tab is in now; the task is run
    /// only where that is the project it was found in. `binary` is the mise binary on this
    /// machine.
    pub fn plan(&self, current: &Option<DiscoveryTarget>, binary: Option<String>) -> (r: Result<
        TaskLaunchPlan,
        TaskLaunchError,
    >)
        ensures
            match launch_refusal(self.deep_view(), current.deep_view(), binary.deep_view()) {
                Some(error) => r == Err::<TaskLaunchPlan, TaskLaunchError>(error),
                None => r is Ok && current is Some && plans(
                    r->Ok_0,
                    self.deep_view(),
                    current.deep_view()->Some_0,
                    binary.deep_view(),
                ),
            },
    {
        let Some(found) = &self.discovery else {
            return Err(TaskLaunchError::NotDiscovered);
        };
        let Some(target) = current else {
            return Err(TaskLaunchError::NoTarget);
        };
        if !same_task_target(&found.target, target) {
            return Err(TaskLaunchError::TargetChanged);
        }
        if !found.contains_task(self.task_name.as_str()) {
            return Err(TaskLaunchError::UnknownTask);
        }
        let Some((working_dir, argv)) = task_spawn_config(
            target,
            self.task_name.as_str(),
            binary,
        ) else {
            return Err(TaskLaunchError::NoCommand);
        };
        let mut tab_name = "mise: ".to_owned();
        tab_name.append(self.task_name.as_str());
        Ok(
            TaskLaunchPlan {
                tab_name,
                working_dir,
                argv,
                respawn_on_exit: task_post_exit_respawn(target),
                workspace_action: self.workspace_action,
                target_label: task_target_label(target),
            },
        )
    }
}

/// A task is run only in the project that it was found in.
pub proof fn law_tasks_run_where_they_were_found(
    request: RequestView,
    current: Option<TargetView>,
    binary: Option<Seq<char>>,
)
    requires
        launch_refusal(request, current, binary) is None,
    ensures
        request.discovery is Some,
        current is Some,
        request.discovery->Some_0.target.key() == current->Some_0.key(),
        request.discovery->Some_0.task_names.contains(request.task_name),
{
}

/// A task is refused for the first reason that holds: nothing was discovered, the tab has no
/// project any more, it is another project now, the task is not known there, or there is no
/// way to run it. Else it is run.
pub proof fn law_why_tasks_are_refused(
    request: RequestView,
    current: Option<TargetView>,
    binary: Option<Seq<char>>,
)
    ensures
        request.discovery is None ==> launch_refusal(request, current, binary) == Some(
            TaskLaunchError::NotDiscovered,
        ),
        request.discovery is Some && current is None ==> launch_refusal(request, current, binary)
            == Some(TaskLaunchError::NoTarget),
        (request.discovery matches Some(found) && current matches Some(target)) ==> {
            let found = request.discovery->0;
            let target = current->0;
            &&& found.target.key() != target.key() ==> launch_refusal(request, current, binary)
                == Some(TaskLaunchError::TargetChanged)
            &&& found.target.key() == target.key() && !found.task_names.contains(request.task_name)
                ==> launch_refusal(request, current, binary) == Some(TaskLaunchError::UnknownTask)
            &&& found.target.key() == target.key() && found.task_names.contains(request.task_name)
                && (target is Local && binary is None) ==> launch_refusal(request, current, binary)
                == Some(TaskLaunchError::NoCommand)
            &&& found.target.key() == target.key() && found.task_names.contains(request.task_name)
                && (target is Local && binary is Some) ==> launch_refusal(
                request,
                current,
                binary,
            ) is None
        },
{
}

/// A task has a tab of its own, which is named after it, and runs there as its place asks.
pub proof fn law_plans_of_tasks(
    plan: TaskLaunchPlan,
    request: RequestView,
    target: TargetView,
    binary: Option<Seq<char>>,
)
    requires
        plans(plan, request, target, binary),
    ensures
        plan.tab_name@ == "mise: "@ + request.task_name,
        target matches TargetView::Local { cwd, .. } ==> plan.working_dir.deep_view() == Some(
            target->Local_cwd,
        ) && plan.respawn_on_exit is None && binary is Some && plan.argv.deep_view() == seq![
            binary->0,
            "run"@,
            "--raw"@,
            request.task_name,
        ],
        target is Remote ==> plan.working_dir is None && plan.argv.deep_view().last()
            == crate::mise::remote::mise_command(
            target->Remote_cwd,
            seq!["run"@, "--raw"@, request.task_name],
            true,
        ) && (plan.respawn_on_exit matches Some(respawn) ==> respawn.argv.deep_view().last()
            == crate::mise::remote::respawn_command(target->Remote_cwd) && respawn.working_dir is None),
        target is Remote ==> plan.respawn_on_exit is Some,
        plan.workspace_action == request.workspace_action,
        plan.target_label@ == target.label(),
{
    if let TargetView::Remote { host, cwd, ssh_argv } = target {
        tasks::law_tasks_of_hosts(host, cwd, ssh_argv, request.task_name, binary);
        let run = crate::mise::remote::mise_command(
            cwd,
            seq!["run"@, "--raw"@, request.task_name],
            true,
        );
        crate::mise::remote::law_no_connection_no_command(ssh_argv, run, true, seq!["-q"@]);
        crate::mise::remote::law_connections_are_kept(ssh_argv, run, true, seq!["-q"@]);
        crate::mise::remote::law_connections_are_kept(
            ssh_argv,
            crate::mise::remote::respawn_command(cwd),
            true,
            seq!["-q"@],
        );
    }
}

} // verus!
