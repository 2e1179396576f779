//! The tasks of a target: which ones are offered, and how they are run.

use vstd::prelude::*;
use vstd::string::*;
use crate::mise;
use crate::mise::{DiscoveryTarget, MiseTask};
use crate::mise::remote;
use crate::mise::remote::{
    remote_mise_run_command, remote_mise_shell_command, remote_shell_respawn_command, shell_quote,
    ssh_command_with_remote_exec,
};
use crate::text::same_text;
use crate::workspace::{ExitRespawn, WorkspaceActionInfo, WorkspaceTaskButton};

verus! {

/// The first task with this name.
pub open spec fn find_task(tasks: Seq<MiseTask>, name: Seq<char>) -> Option<MiseTask>
    decreases tasks.len(),
{
    if tasks.len() == 0 {
        None
    } else if tasks[0].name@ == name {
        Some(tasks[0])
    } else {
        find_task(tasks.skip(1), name)
    }
}

/// Whether a task has this name.
pub fn has_task(tasks: &Vec<MiseTask>, name: &str) -> (r: bool)
    ensures
        r == (find_task(tasks@, name@) is Some),
{
    let ghost all = tasks@;
    let mut i: usize = 0;
    assert(all.skip(0) =~= all);
    while i < tasks.len()
        invariant
            all == tasks@,
            i <= all.len(),
            find_task(all.skip(i as int), name@) == find_task(all, name@),
        decreases all.len() - i,
    {
        assert(all.skip(i as int).skip(1) =~= all.skip(i + 1));
        if same_text(tasks[i].name.as_str(), name) {
            return true;
        }
        i += 1;
    }
    false
}

/// A task that was found has the name that was looked for.
pub proof fn lemma_find_task(tasks: Seq<MiseTask>, name: Seq<char>)
    ensures
        find_task(tasks, name) matches Some(task) ==> task.name@ == name,
    decreases tasks.len(),
{
    if tasks.len() > 0 {
        lemma_find_task(tasks.skip(1), name);
    }
}

/// The actions whose task is among the tasks, in the order of the actions.
pub open spec fn offered_actions(
    actions: Seq<WorkspaceActionInfo>,
    tasks: Seq<MiseTask>,
) -> Seq<WorkspaceActionInfo>
    decreases actions.len(),
{
    if actions.len() == 0 {
        Seq::empty()
    } else {
        let before = offered_actions(actions.drop_last(), tasks);
        if find_task(tasks, actions.last().task_name@) is Some {
            before.push(actions.last())
        } else {
            before
        }
    }
}

/// The workspace actions, of those that there are, whose task is among the tasks.
pub fn standard_actions_from_tasks(
    tasks: &Vec<MiseTask>,
    actions: &Vec<WorkspaceActionInfo>,
) -> (r: Vec<WorkspaceActionInfo>)
    ensures
        r@ == offered_actions(actions@, tasks@),
{
    let mut out: Vec<WorkspaceActionInfo> = Vec::new();
    let mut i: usize = 0;
    while i < actions.len()
        invariant
            i <= actions@.len(),
            out@ == offered_actions(actions@.take(i as int), tasks@),
        decreases actions@.len() - i,
    {
        assert(actions@.take(i + 1).drop_last() =~= actions@.take(i as int));
        if has_task(tasks, actions[i].task_name.as_str()) {
            out.push(actions[i].copy_info());
        }
        i += 1;
    }
    assert(actions@.take(i as int) =~= actions@);
    out
}

/// The mathematical value of a [`WorkspaceTaskButton`].
pub struct ButtonView {
    pub label: Seq<char>,
    pub task_name: Seq<char>,
}

impl DeepView for WorkspaceTaskButton {
    type V = ButtonView;

    open spec fn deep_view(&self) -> ButtonView {
        ButtonView { label: self.label@, task_name: self.task_name@ }
    }
}

/// The buttons of the pinned tasks that exist, in the order in which they are pinned.
pub open spec fn pinned_buttons(pinned: Seq<Seq<char>>, tasks: Seq<MiseTask>) -> Seq<ButtonView>
    decreases pinned.len(),
{
    if pinned.len() == 0 {
        Seq::empty()
    } else {
        let before = pinned_buttons(pinned.drop_last(), tasks);
        if find_task(tasks, pinned.last()) is Some {
            before.push(ButtonView { label: pinned.last(), task_name: pinned.last() })
        } else {
            before
        }
    }
}

/// The buttons of actions.
pub open spec fn action_buttons(actions: Seq<WorkspaceActionInfo>) -> Seq<ButtonView> {
    Seq::new(
        actions.len(),
        |i: int| ButtonView { label: actions[i].label@, task_name: actions[i].task_name@ },
    )
}

/// The task buttons of a project: the tasks that it pins, or, where it pins none, the
/// workspace actions that have a task.
pub fn task_buttons_from_tasks(
    tasks: &Vec<MiseTask>,
    pinned: Option<Vec<String>>,
    actions: &Vec<WorkspaceActionInfo>,
) -> (r: Vec<WorkspaceTaskButton>)
    ensures
        r.deep_view() == match pinned {
            Some(names) => pinned_buttons(names.deep_view(), tasks@),
            None => action_buttons(offered_actions(actions@, tasks@)),
        },
{
    let mut out: Vec<WorkspaceTaskButton> = Vec::new();
    if let Some(names) = pinned {
        let ghost model = names.deep_view();
        let mut i: usize = 0;
        assert(out.deep_view() =~= pinned_buttons(model.take(0), tasks@));
        while i < names.len()
            invariant
                model == names.deep_view(),
                i <= names@.len(),
                out.deep_view() == pinned_buttons(model.take(i as int), tasks@),
            decreases names@.len() - i,
        {
            let ghost before = out.deep_view();
            assert(model.take(i + 1).drop_last() =~= model.take(i as int));
            assert(model.take(i + 1).last() == names@[i as int]@);
            if has_task(tasks, names[i].as_str()) {
                let button = WorkspaceTaskButton { label: names[i].clone(), task_name: names[i].clone() };
                let ghost view = button.deep_view();
                out.push(button);
                assert(out.deep_view() =~= before.push(view));
            }
            i += 1;
        }
        assert(model.take(i as int) =~= model);
        return out;
    }
    let offered = standard_actions_from_tasks(tasks, actions);
    let mut i: usize = 0;
    while i < offered.len()
        invariant
            i <= offered@.len(),
            out.deep_view() == action_buttons(offered@).take(i as int),
        decreases offered@.len() - i,
    {
        let ghost before = out.deep_view();
        let button = WorkspaceTaskButton {
            label: offered[i].label.clone(),
            task_name: offered[i].task_name.clone(),
        };
        let ghost view = button.deep_view();
        out.push(button);
        assert(out.deep_view() =~= before.push(view));
        i += 1;
        assert(out.deep_view() =~= action_buttons(offered@).take(i as int));
    }
    assert(out.deep_view() =~= action_buttons(offered@));
    out
}

/// How a task is started: the directory that the command runs in, where it is on this
/// machine, and its arguments.
pub open spec fn spawn_config(
    target: mise::TargetView,
    task_name: Seq<char>,
    binary: Option<Seq<char>>,
) -> Option<(Option<Seq<char>>, Seq<Seq<char>>)> {
    match target {
        mise::TargetView::Local { cwd, .. } => match binary {
            Some(path) => Some((Some(cwd), seq![path, "run"@, "--raw"@, task_name])),
            None => None,
        },
        mise::TargetView::Remote { cwd, ssh_argv, .. } => match remote::remote_exec(
            ssh_argv,
            remote::mise_command(cwd, seq!["run"@, "--raw"@, task_name], true),
            true,
            seq!["-q"@],
        ) {
            Some(argv) => Some((None, argv)),
            None => None,
        },
    }
}

/// How a task is started. `binary` is the mise binary on this machine; without one no
/// task of a local target can be started.
pub fn task_spawn_config(
    target: &DiscoveryTarget,
    task_name: &str,
    binary: Option<String>,
) -> (r: Option<(Option<String>, Vec<String>)>)
    ensures
        r.deep_view() == spawn_config(target.deep_view(), task_name@, binary.deep_view()),
{
    match target {
        DiscoveryTarget::Local { cwd, .. } => match binary {
            Some(path) => {
                let mut argv: Vec<String> = Vec::new();
                let ghost model = path@;
                argv.push(path);
                argv.push("run".to_owned());
                argv.push("--raw".to_owned());
                argv.push(task_name.to_owned());
                assert(argv.deep_view() =~= seq![model, "run"@, "--raw"@, task_name@]);
                Some((Some(cwd.clone()), argv))
            },
            None => None,
        },
        DiscoveryTarget::Remote { cwd, ssh_argv, .. } => {
            let args: [&str; 3] = ["run", "--raw", task_name];
            let command = remote_mise_shell_command(cwd.as_str(), &args);
            let extra: [&str; 1] = ["-q"];
            assert(args.deep_view() =~= seq!["run"@, "--raw"@, task_name@]);
            assert(extra.deep_view() =~= seq!["-q"@]);
            match ssh_command_with_remote_exec(ssh_argv, command, true, &extra) {
                Some(argv) => Some((None, argv)),
                None => None,
            }
        },
    }
}

/// The shell command that runs a task.
pub open spec fn shell_command(
    target: mise::TargetView,
    task_name: Seq<char>,
    binary: Option<Seq<char>>,
) -> Option<Seq<char>> {
    match target {
        mise::TargetView::Local { .. } => match binary {
            Some(path) => Some(remote::quoted(path) + " run --raw "@ + remote::quoted(task_name)),
            None => None,
        },
        mise::TargetView::Remote { cwd, .. } => Some(
            remote::mise_command(cwd, seq!["run"@, "--raw"@, task_name], false),
        ),
    }
}

/// The shell command that runs a task.
pub fn task_shell_command(
    target: &DiscoveryTarget,
    task_name: &str,
    binary: Option<String>,
) -> (r: Option<String>)
    ensures
        r.deep_view() == shell_command(target.deep_view(), task_name@, binary.deep_view()),
{
    match target {
        DiscoveryTarget::Local { .. } => match binary {
            Some(path) => {
                let mut command = shell_quote(path.as_str());
                command.append(" run --raw ");
                command.append(shell_quote(task_name).as_str());
                Some(command)
            },
            None => None,
        },
        DiscoveryTarget::Remote { cwd, .. } => {
            let args: [&str; 3] = ["run", "--raw", task_name];
            assert(args.deep_view() =~= seq!["run"@, "--raw"@, task_name@]);
            Some(remote_mise_run_command(cwd.as_str(), &args))
        },
    }
}

/// What follows a task in its pane: on a remote host a shell there, on this machine
/// nothing of its own.
pub open spec fn post_exit(target: mise::TargetView) -> Option<Seq<Seq<char>>> {
    match target {
        mise::TargetView::Remote { cwd, ssh_argv, .. } => remote::remote_exec(
            ssh_argv,
            remote::respawn_command(cwd),
            true,
            seq!["-q"@],
        ),
        mise::TargetView::Local { .. } => None,
    }
}

/// What follows a task in its pane.
pub fn task_post_exit_respawn(target: &DiscoveryTarget) -> (r: Option<ExitRespawn>)
    ensures
        r is Some <==> post_exit(target.deep_view()) is Some,
        r matches Some(respawn) ==> respawn.working_dir is None && Some(respawn.argv.deep_view())
            == post_exit(target.deep_view()),
{
    match target {
        DiscoveryTarget::Remote { cwd, ssh_argv, .. } => {
            let command = remote_shell_respawn_command(cwd.as_str());
            let extra: [&str; 1] = ["-q"];
            assert(extra.deep_view() =~= seq!["-q"@]);
            match ssh_command_with_remote_exec(ssh_argv, command, true, &extra) {
                Some(argv) => Some(ExitRespawn { working_dir: None, argv }),
                None => None,
            }
        },
        DiscoveryTarget::Local { .. } => None,
    }
}

/// The SSH command line that lists the tasks of a remote directory as JSON, without
/// asking for a password.
pub fn remote_task_list_argv(cwd: &str, ssh_argv: &Vec<String>) -> (r: Option<Vec<String>>)
    ensures
        r.deep_view() == remote::remote_exec(
            ssh_argv.deep_view(),
            remote::mise_command(cwd@, seq!["tasks"@, "ls"@, "--json"@], true),
            false,
            seq!["-o"@, "BatchMode=yes"@],
        ),
{
    let args: [&str; 3] = ["tasks", "ls", "--json"];
    assert(args.deep_view() =~= seq!["tasks"@, "ls"@, "--json"@]);
    let command = remote_mise_shell_command(cwd, &args);
    let extra: [&str; 2] = ["-o", "BatchMode=yes"];
    assert(extra.deep_view() =~= seq!["-o"@, "BatchMode=yes"@]);
    ssh_command_with_remote_exec(ssh_argv, command, false, &extra)
}

/// A remote task runs over exactly the connection of its target: SSH runs the task's
/// command, and nothing else, at the destination of the target.
pub proof fn law_remote_task_runs_at_the_targets_destination(
    host: Seq<char>,
    cwd: Seq<char>,
    ssh_argv: Seq<Seq<char>>,
    task_name: Seq<char>,
    binary: Option<Seq<char>>,
)
    ensures
        spawn_config(mise::TargetView::Remote { host, cwd, ssh_argv }, task_name, binary) matches Some(
            (dir, argv),
        ) ==> {
            &&& dir is None
            &&& remote::destination(argv) == Some(argv.len() - 2)
            &&& argv[argv.len() - 2] == ssh_argv[remote::destination(ssh_argv)->0]
            &&& argv.last() == remote::mise_command(cwd, seq!["run"@, "--raw"@, task_name], true)
        },
{
    remote::law_remote_command_follows_the_destination(
        ssh_argv,
        remote::mise_command(cwd, seq!["run"@, "--raw"@, task_name], true),
        true,
        seq!["-q"@],
    );
}

/// A task is found by its name, the first where several have it.
pub proof fn law_tasks_are_found_by_name(tasks: Seq<MiseTask>, name: Seq<char>)
    ensures
        find_task(tasks, name) matches Some(task) ==> task.name@ == name && tasks.contains(task),
        find_task(tasks, name) is None <==> forall|i: int|
            0 <= i < tasks.len() ==> (#[trigger] tasks[i]).name@ != name,
        tasks.len() > 0 && tasks[0].name@ == name ==> find_task(tasks, name) == Some(tasks[0]),
    decreases tasks.len(),
{
    if tasks.len() > 0 {
        let rest = tasks.skip(1);
        law_tasks_are_found_by_name(rest, name);
        if tasks[0].name@ == name {
            assert(tasks.contains(tasks[0]));
        } else {
            if let Some(task) = find_task(rest, name) {
                let i = choose|i: int| 0 <= i < rest.len() && rest[i] == task;
                assert(tasks[i + 1] == task);
            }
            if find_task(tasks, name) is None {
                assert forall|i: int| 0 <= i < tasks.len() implies (#[trigger] tasks[i]).name@
                    != name by {
                    if i > 0 {
                        assert(rest[i - 1] == tasks[i]);
                    }
                }
            }
            if forall|i: int| 0 <= i < tasks.len() ==> (#[trigger] tasks[i]).name@ != name {
                assert forall|i: int| 0 <= i < rest.len() implies (#[trigger] rest[i]).name@
                    != name by {
                    assert(rest[i] == tasks[i + 1]);
                }
            }
        }
    }
}

/// Exactly those actions are offered whose task there is, in their order.
pub proof fn law_actions_are_offered_for_their_tasks(
    actions: Seq<WorkspaceActionInfo>,
    action: WorkspaceActionInfo,
    tasks: Seq<MiseTask>,
)
    ensures
        offered_actions(Seq::empty(), tasks) == Seq::<WorkspaceActionInfo>::empty(),
        (exists|i: int| 0 <= i < tasks.len() && (#[trigger] tasks[i]).name@ == action.task_name@)
            ==> offered_actions(actions.push(action), tasks) == offered_actions(
            actions,
            tasks,
        ).push(action),
        (forall|i: int| 0 <= i < tasks.len() ==> (#[trigger] tasks[i]).name@ != action.task_name@)
            ==> offered_actions(actions.push(action), tasks) == offered_actions(actions, tasks),
{
    law_tasks_are_found_by_name(tasks, action.task_name@);
    assert(actions.push(action).drop_last() =~= actions);
}

/// Exactly those pinned tasks have a button that there are, in their order, under their own
/// names; the buttons of actions have the actions' labels.
pub proof fn law_buttons_of_tasks(
    pinned: Seq<Seq<char>>,
    name: Seq<char>,
    tasks: Seq<MiseTask>,
    actions: Seq<WorkspaceActionInfo>,
)
    ensures
        pinned_buttons(Seq::empty(), tasks) == Seq::<ButtonView>::empty(),
        (exists|i: int| 0 <= i < tasks.len() && (#[trigger] tasks[i]).name@ == name)
            ==> pinned_buttons(pinned.push(name), tasks) == pinned_buttons(pinned, tasks).push(
            ButtonView { label: name, task_name: name },
        ),
        (forall|i: int| 0 <= i < tasks.len() ==> (#[trigger] tasks[i]).name@ != name)
            ==> pinned_buttons(pinned.push(name), tasks) == pinned_buttons(pinned, tasks),
        action_buttons(actions).len() == actions.len(),
        forall|i: int|
            0 <= i < actions.len() ==> (#[trigger] action_buttons(actions)[i]).label
                == actions[i].label@ && action_buttons(actions)[i].task_name
                == actions[i].task_name@,
{
    law_tasks_are_found_by_name(tasks, name);
    assert(pinned.push(name).drop_last() =~= pinned);
}

/// A task of this machine is run by the binary, in its directory; without a binary it is not.
/// Nothing follows it in its pane.
pub proof fn law_tasks_of_this_machine(
    cwd: Seq<char>,
    own: Option<Seq<char>>,
    task_name: Seq<char>,
    binary: Seq<char>,
)
    ensures
        ({
            let target = mise::TargetView::Local { cwd, binary_path: own };
            &&& spawn_config(target, task_name, Some(binary)) == Some(
                (Some(cwd), seq![binary, "run"@, "--raw"@, task_name]),
            )
            &&& spawn_config(target, task_name, None) is None
            &&& shell_command(target, task_name, Some(binary)) == Some(
                remote::quoted(binary) + " run --raw "@ + remote::quoted(task_name),
            )
            &&& shell_command(target, task_name, None) is None
            &&& post_exit(target) is None
        }),
{
}

/// A task of a host is run over the connection there, quietly and with a terminal, in its
/// directory; a shell in that directory follows it.
pub proof fn law_tasks_of_hosts(
    host: Seq<char>,
    cwd: Seq<char>,
    ssh_argv: Seq<Seq<char>>,
    task_name: Seq<char>,
    binary: Option<Seq<char>>,
)
    ensures
        ({
            let target = mise::TargetView::Remote { host, cwd, ssh_argv };
            let run = remote::mise_command(cwd, seq!["run"@, "--raw"@, task_name], true);
            let line = remote::remote_exec(ssh_argv, run, true, seq!["-q"@]);
            &&& spawn_config(target, task_name, binary) is Some <==> line is Some
            &&& line matches Some(argv) ==> spawn_config(target, task_name, binary) == Some(
                (None::<Seq<char>>, line->0),
            )
            &&& post_exit(target) == remote::remote_exec(
                ssh_argv,
                remote::respawn_command(cwd),
                true,
                seq!["-q"@],
            )
            &&& shell_command(target, task_name, binary) == Some(
                remote::mise_command(cwd, seq!["run"@, "--raw"@, task_name], false),
            )
            &&& ssh_argv == seq!["ssh"@, host] && host.len() > 0 && host[0] != '-' ==> {
                &&& spawn_config(target, task_name, binary) == Some(
                    (None::<Seq<char>>, seq!["ssh"@, "-tt"@, "-q"@, host, run]),
                )
                &&& post_exit(target) == Some(
                    seq!["ssh"@, "-tt"@, "-q"@, host, remote::respawn_command(cwd)],
                )
            }
        }),
{
    let run = remote::mise_command(cwd, seq!["run"@, "--raw"@, task_name], true);
    if ssh_argv == seq!["ssh"@, host] && host.len() > 0 && host[0] != '-' {
        remote::law_a_plain_connection(host, run, seq!["-q"@]);
        remote::law_a_plain_connection(host, remote::respawn_command(cwd), seq!["-q"@]);
        assert(seq!["ssh"@, "-tt"@] + seq!["-q"@] + seq![host, run] =~= seq![
            "ssh"@,
            "-tt"@,
            "-q"@,
            host,
            run,
        ]);
        assert(seq!["ssh"@, "-tt"@] + seq!["-q"@] + seq![host, remote::respawn_command(cwd)]
            =~= seq!["ssh"@, "-tt"@, "-q"@, host, remote::respawn_command(cwd)]);
    }
}

} // verus!
