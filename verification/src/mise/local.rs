//! The mise binary on this machine, and where tasks come from.

use vstd::prelude::*;
use vstd::string::*;
use crate::mise;
use crate::mise::{DiscoveryTarget, MiseTask, MiseTaskScope};
use crate::paths;
use crate::paths::{is_prefix_of_parts, join_path, path_components, path_dir_components};
use crate::text;
use crate::text::trim;
use crate::workspace::AppState;

verus! {

/// What was found of mise on this machine.
#[derive(Debug, Clone, PartialEq, Eq)]
pub struct MiseSearch {
    /// The binary that the environment names.
    pub override_path: Option<String>,
    /// What the search of the command path printed, where it succeeded.
    pub which_output: Option<String>,
    pub in_usr_bin: bool,
    pub in_usr_local_bin: bool,
    pub home: Option<String>,
    pub in_home: bool,
}

impl MiseSearch {
    /// The path of mise: the one that the environment names, the one in the command path,
    /// one in the usual places, or the one that mise installs for the user.
    pub open spec fn found(self) -> Option<Seq<char>> {
        if self.override_path matches Some(path) && path@.len() > 0 {
            Some(self.override_path->0@)
        } else if self.which_output matches Some(output) && text::trimmed(output@).len() > 0 {
            Some(text::trimmed(self.which_output->0@))
        } else if self.in_usr_bin {
            Some("/usr/bin/mise"@)
        } else if self.in_usr_local_bin {
            Some("/usr/local/bin/mise"@)
        } else if self.in_home && self.home is Some {
            Some(paths::joined_path(self.home->0@, ".local/bin/mise"@))
        } else {
            None
        }
    }
}

/// The path of mise on this machine.
pub fn find_mise(search: &MiseSearch) -> (r: Option<String>)
    ensures
        r.deep_view() == search.found(),
{
    if let Some(path) = &search.override_path {
        if !path.as_str().is_empty() {
            return Some(path.clone());
        }
    }
    if let Some(output) = &search.which_output {
        let path = trim(output.as_str());
        if !path.as_str().is_empty() {
            return Some(path);
        }
    }
    if search.in_usr_bin {
        return Some("/usr/bin/mise".to_owned());
    }
    if search.in_usr_local_bin {
        return Some("/usr/local/bin/mise".to_owned());
    }
    if search.in_home {
        if let Some(home) = &search.home {
            return Some(join_path(home.as_str(), ".local/bin/mise"));
        }
    }
    None
}

/// The mise binary of a local target: the one that it carries, else the one that was
/// found.
pub fn resolve_local_mise_binary(
    binary_path: &Option<String>,
    found: Option<String>,
) -> (r: Option<String>)
    ensures
        r == (if binary_path is Some {
            *binary_path
        } else {
            found
        }),
{
    match binary_path {
        Some(path) => Some(path.clone()),
        None => found,
    }
}

/// Whether discovery for a tab has to look for mise: only for a local target that carries
/// no binary, in a tab for which none is recorded.
pub open spec fn must_look(state: AppState, tab_id: u32, target: mise::TargetView) -> bool {
    target matches mise::TargetView::Local { binary_path, .. } && binary_path is None
        && !state.discovery_binary_paths@.contains_key(tab_id)
}

/// Whether discovery for a tab has to look for mise.
pub fn needs_mise_lookup(state: &AppState, tab_id: u32, target: &DiscoveryTarget) -> (r: bool)
    ensures
        r == must_look(*state, tab_id, target.deep_view()),
{
    broadcast use vstd::std_specs::hash::group_hash_axioms;

    match target {
        DiscoveryTarget::Local { binary_path, .. } => binary_path.is_none()
            && !state.discovery_binary_paths.contains_key(&tab_id),
        DiscoveryTarget::Remote { .. } => false,
    }
}

/// The recorded binaries after discovery for a tab: the target's own binary replaces what
/// was recorded, otherwise what was recorded stays, otherwise what was found is recorded;
/// a remote target has no binary on this machine.
pub open spec fn binaries_after(
    recorded: Map<u32, String>,
    tab_id: u32,
    target: DiscoveryTarget,
    found: Option<String>,
) -> Map<u32, String> {
    match target {
        DiscoveryTarget::Local { binary_path: Some(path), .. } => recorded.insert(tab_id, path),
        DiscoveryTarget::Local { binary_path: None, .. } => if recorded.contains_key(tab_id) {
            recorded
        } else {
            match found {
                Some(path) => recorded.insert(tab_id, path),
                None => recorded,
            }
        },
        DiscoveryTarget::Remote { .. } => recorded.remove(tab_id),
    }
}

/// Record the mise binary of a tab, so that its tasks run with the binary that discovered
/// them: discovery and execution may see different command paths. `found` is what a look
/// for mise gave, where one was needed.
pub fn update_discovery_binary_cache(
    state: &mut AppState,
    tab_id: u32,
    target: &DiscoveryTarget,
    found: Option<String>,
)
    ensures
        final(state).discovery_binary_paths@ == binaries_after(
            old(state).discovery_binary_paths@,
            tab_id,
            *target,
            found,
        ),
        *final(state) == (AppState {
            discovery_binary_paths: final(state).discovery_binary_paths,
            ..*old(state)
        }),
{
    broadcast use vstd::std_specs::hash::group_hash_axioms;

    match target {
        DiscoveryTarget::Local { binary_path, .. } => match binary_path {
            Some(path) => {
                state.discovery_binary_paths.insert(tab_id, path.clone());
            },
            None => {
                if !state.discovery_binary_paths.contains_key(&tab_id) {
                    if let Some(path) = found {
                        state.discovery_binary_paths.insert(tab_id, path);
                    }
                }
            },
        },
        DiscoveryTarget::Remote { .. } => {
            state.discovery_binary_paths.remove(&tab_id);
        },
    }
}

/// Once a binary is recorded for a tab, further discovery for the same target neither
/// looks for mise again nor changes it.
pub proof fn law_recorded_binary_is_reused(
    state: AppState,
    tab_id: u32,
    target: DiscoveryTarget,
    found: Option<String>,
    later: Option<String>,
)
    requires
        target is Local,
        binaries_after(state.discovery_binary_paths@, tab_id, target, found).contains_key(tab_id),
    ensures
        ({
            let recorded = binaries_after(state.discovery_binary_paths@, tab_id, target, found);
            binaries_after(recorded, tab_id, target, later) == recorded
        }),
{
    let recorded = binaries_after(state.discovery_binary_paths@, tab_id, target, found);
    assert(binaries_after(recorded, tab_id, target, later) =~= recorded);
}

/// A tab that turned to a remote target has no recorded binary, and other tabs keep
/// theirs.
pub proof fn law_binary_cache_is_kept_per_tab(
    recorded: Map<u32, String>,
    tab_id: u32,
    other: u32,
    target: DiscoveryTarget,
    found: Option<String>,
)
    ensures
        target is Remote ==> !binaries_after(recorded, tab_id, target, found).contains_key(tab_id),
        other != tab_id ==> {
            &&& binaries_after(recorded, tab_id, target, found).contains_key(other)
                == recorded.contains_key(other)
            &&& recorded.contains_key(other) ==> binaries_after(recorded, tab_id, target, found)[other]
                == recorded[other]
        },
{
}

/// Where something that is defined in the file `source` stands, seen from `root`: in the
/// project when the file's directory lies in it, in a directory above when the project
/// lies in the file's directory; nowhere that is known otherwise.
pub open spec fn source_scope(source: Seq<char>, root: Seq<char>) -> Option<MiseTaskScope> {
    let dir = paths::dir_components(source);
    let base = paths::components(root);
    if paths::starts_with_parts(dir, base) {
        Some(MiseTaskScope::ProjectRoot)
    } else if paths::starts_with_parts(base, dir) {
        Some(MiseTaskScope::ParentDir)
    } else {
        None
    }
}

/// Where something that is defined in the file `source` stands, seen from `root`.
pub fn scope_of_source(source: &str, root: &str) -> (r: Option<MiseTaskScope>)
    ensures
        r == source_scope(source@, root@),
{
    let dir = path_dir_components(source);
    let base = path_components(root);
    if is_prefix_of_parts(&base, &dir) {
        Some(MiseTaskScope::ProjectRoot)
    } else if is_prefix_of_parts(&dir, &base) {
        Some(MiseTaskScope::ParentDir)
    } else {
        None
    }
}

/// The scope of a task, seen from `root`. A task without a known place counts to the
/// project unless it is global.
pub open spec fn task_scope(task: MiseTask, root: Seq<char>) -> MiseTaskScope {
    let known = match task.source {
        Some(source) => source_scope(source@, root),
        None => None,
    };
    match known {
        Some(scope) => scope,
        None => if task.global {
            MiseTaskScope::Global
        } else {
            MiseTaskScope::ProjectRoot
        },
    }
}

/// The scope of a task, seen from `discovery_root`.
pub fn classify_task_scope(task: &MiseTask, discovery_root: &str) -> (r: MiseTaskScope)
    ensures
        r == task_scope(*task, discovery_root@),
{
    let known = match &task.source {
        Some(source) => scope_of_source(source.as_str(), discovery_root),
        None => None,
    };
    match known {
        Some(scope) => scope,
        None => if task.global {
            MiseTaskScope::Global
        } else {
            MiseTaskScope::ProjectRoot
        },
    }
}

/// The tasks that are not hidden.
pub open spec fn visible(tasks: Seq<MiseTask>) -> Seq<MiseTask> {
    tasks.filter(|task: MiseTask| !task.hide)
}

/// The tasks that are offered for a target: all of them if global tasks are wanted, else
/// those whose scope is not global.
pub open spec fn in_scope(
    tasks: Seq<MiseTask>,
    target: mise::TargetView,
    include_global: bool,
) -> Seq<MiseTask> {
    if include_global {
        tasks
    } else {
        tasks.filter(|task: MiseTask| task_scope(task, target.dir()) != MiseTaskScope::Global)
    }
}

/// The tasks that are offered for a target.
pub fn filter_tasks_for_target(
    tasks: Vec<MiseTask>,
    target: &DiscoveryTarget,
    include_global: bool,
) -> (r: Vec<MiseTask>)
    ensures
        r@ == in_scope(tasks@, target.deep_view(), include_global),
{
    if include_global {
        return tasks;
    }
    let root = target.dir_text();
    let mut out: Vec<MiseTask> = Vec::new();
    let ghost keep = |task: MiseTask| task_scope(task, root@) != MiseTaskScope::Global;
    let mut i: usize = 0;
    assert(tasks@.take(0).filter(keep) =~= Seq::empty()) by {
        reveal(Seq::filter);
    }
    while i < tasks.len()
        invariant
            i <= tasks@.len(),
            keep == (|task: MiseTask| task_scope(task, root@) != MiseTaskScope::Global),
            out@ == tasks@.take(i as int).filter(keep),
        decreases tasks@.len() - i,
    {
        assert(tasks@.take(i + 1).drop_last() =~= tasks@.take(i as int));
        reveal(Seq::filter);
        if classify_task_scope(&tasks[i], root) != MiseTaskScope::Global {
            out.push(tasks[i].copy_task());
        }
        i += 1;
    }
    assert(tasks@.take(i as int) =~= tasks@);
    out
}

/// The tasks that discovery gives for what mise listed: those that are not hidden, as far
/// as they are offered for the target.
pub fn offered_tasks(
    listed: Vec<MiseTask>,
    target: &DiscoveryTarget,
    include_global: bool,
) -> (r: Vec<MiseTask>)
    ensures
        r@ == in_scope(visible(listed@), target.deep_view(), include_global),
{
    let mut shown: Vec<MiseTask> = Vec::new();
    let ghost keep = |task: MiseTask| !task.hide;
    let mut i: usize = 0;
    assert(listed@.take(0).filter(keep) =~= Seq::empty()) by {
        reveal(Seq::filter);
    }
    while i < listed.len()
        invariant
            i <= listed@.len(),
            keep == (|task: MiseTask| !task.hide),
            shown@ == listed@.take(i as int).filter(keep),
        decreases listed@.len() - i,
    {
        assert(listed@.take(i + 1).drop_last() =~= listed@.take(i as int));
        reveal(Seq::filter);
        if !listed[i].hide {
            shown.push(listed[i].copy_task());
        }
        i += 1;
    }
    assert(listed@.take(i as int) =~= listed@);
    filter_tasks_for_target(shown, target, include_global)
}

/// How often a busy binary is tried again.
pub const MAX_BUSY_RETRIES: u32 = 20;

/// Whether to start mise again after a failed start: a binary that was just written may be
/// busy for a moment.
pub fn retry_busy_binary(busy: bool, retries: u32) -> (r: bool)
    ensures
        r == (busy && retries < MAX_BUSY_RETRIES),
{
    busy && retries < MAX_BUSY_RETRIES
}

/// The binary is the one that the user names, else the one on the path, else the first of the
/// usual places that has it.
pub proof fn law_where_mise_is_found(search: MiseSearch)
    ensures
        ({
            let named = search.override_path matches Some(path) && path@.len() > 0;
            let on_path = search.which_output matches Some(output) && text::trimmed(output@).len()
                > 0;
            &&& named ==> search.found() == Some(search.override_path->0@)
            &&& !named && on_path ==> search.found() == Some(text::trimmed(search.which_output->0@))
            &&& !named && !on_path && search.in_usr_bin ==> search.found() == Some(
                "/usr/bin/mise"@,
            )
            &&& !named && !on_path && !search.in_usr_bin && search.in_usr_local_bin
                ==> search.found() == Some("/usr/local/bin/mise"@)
            &&& !named && !on_path && !search.in_usr_bin && !search.in_usr_local_bin
                && search.in_home && (search.home matches Some(home) && home@.len() > 0
                && home@.last() != '/') ==> search.found() == Some(
                search.home->0@ + "/.local/bin/mise"@,
            )
            &&& !named && !on_path && !search.in_usr_bin && !search.in_usr_local_bin
                && !search.in_home ==> search.found() is None
        }),
{
    reveal_strlit(".local/bin/mise");
    reveal_strlit("/.local/bin/mise");
    if let Some(home) = search.home {
        if home@.len() > 0 && home@.last() != '/' {
            paths::law_joining_paths(home@, ".local/bin/mise"@);
            assert(home@ + seq!['/'] + ".local/bin/mise"@ =~= home@ + "/.local/bin/mise"@);
        }
    }
}

/// A binary that a discovery names is recorded for its tab; one that was looked up is only
/// where none is recorded yet. It is looked up only where it is needed.
pub proof fn law_recorded_binaries(
    state: AppState,
    tab_id: u32,
    cwd: String,
    path: String,
    found: Option<String>,
)
    ensures
        ({
            let recorded = state.discovery_binary_paths@;
            let named = DiscoveryTarget::Local { cwd, binary_path: Some(path) };
            let unnamed = DiscoveryTarget::Local { cwd, binary_path: None };
            &&& binaries_after(recorded, tab_id, named, found)[tab_id] == path
            &&& recorded.contains_key(tab_id) ==> binaries_after(recorded, tab_id, unnamed, found)
                == recorded
            &&& !recorded.contains_key(tab_id) && (found matches Some(p)) ==> binaries_after(
                recorded,
                tab_id,
                unnamed,
                found,
            )[tab_id] == found->0
            &&& !recorded.contains_key(tab_id) && found is None ==> binaries_after(
                recorded,
                tab_id,
                unnamed,
                found,
            ) == recorded
            &&& !must_look(state, tab_id, named.deep_view())
            &&& must_look(state, tab_id, unnamed.deep_view()) == !recorded.contains_key(tab_id)
        }),
{
}

/// A task that a file in the project's directory or below it defines belongs to the project;
/// one from a directory above it, to the surroundings.
pub proof fn law_tasks_belong_where_they_are_defined(
    dir: Seq<char>,
    sub: Seq<char>,
    name: Seq<char>,
    task: MiseTask,
)
    requires
        dir.len() > 0,
        dir.last() != '/',
        dir.last() != '.',
        sub.len() > 0,
        !sub.contains('/'),
        sub.last() != '.',
        name.len() > 0,
        !name.contains('/'),
        name != "."@,
        name != ".."@,
    ensures
        source_scope(dir + seq!['/'] + name, dir) == Some(MiseTaskScope::ProjectRoot),
        source_scope(dir + seq!['/'] + sub + seq!['/'] + name, dir) == Some(
            MiseTaskScope::ProjectRoot,
        ),
        source_scope(dir + seq!['/'] + name, dir + seq!['/'] + sub) == Some(
            MiseTaskScope::ParentDir,
        ),
        task.source matches Some(source) && source@ == dir + seq!['/'] + name ==> task_scope(
            task,
            dir,
        ) == MiseTaskScope::ProjectRoot && task_scope(task, dir + seq!['/'] + sub)
            == MiseTaskScope::ParentDir,
{
    reveal_strlit(".");
    reveal_strlit("..");
    let inner = dir + seq!['/'] + sub;
    assert(sub != "."@ && sub != ".."@) by {
        assert("."@.last() == '.' && ".."@.last() == '.');
    }
    assert(inner.last() == sub.last());
    assert(inner.last() != '/') by {
        assert(sub[sub.len() - 1] != '/');
    }
    paths::law_names_and_directories(dir, name);
    paths::law_names_and_directories(inner, name);
    paths::law_components(dir, sub);
    let base = paths::components(dir);
    paths::law_lists_with_a_beginning(base, Seq::empty());
    assert(base + Seq::<Seq<char>>::empty() =~= base);
    paths::law_lists_with_a_beginning(base, seq![sub]);
    assert(base + seq![sub] =~= base.push(sub));
    assert(!paths::starts_with_parts(base, base.push(sub)));
}

/// A task of unknown origin belongs to the project, unless mise calls it global; so does one
/// from another directory.
pub proof fn law_tasks_of_unknown_origin(task: MiseTask, root: Seq<char>)
    ensures
        task.source is None || (task.source matches Some(source) && source_scope(source@, root) is None)
            ==> task_scope(task, root) == if task.global {
            MiseTaskScope::Global
        } else {
            MiseTaskScope::ProjectRoot
        },
        (task.source matches Some(source) && source_scope(source@, root) is Some) ==> task_scope(
            task,
            root,
        ) != MiseTaskScope::Global,
{
}

/// Hidden tasks are left out, and global ones where they are not wanted; all others stay, in
/// their order.
pub proof fn law_tasks_that_are_listed(
    tasks: Seq<MiseTask>,
    task: MiseTask,
    target: mise::TargetView,
)
    ensures
        visible(Seq::empty()) == Seq::<MiseTask>::empty(),
        task.hide ==> visible(tasks.push(task)) == visible(tasks),
        !task.hide ==> visible(tasks.push(task)) == visible(tasks).push(task),
        in_scope(tasks, target, true) == tasks,
        in_scope(Seq::empty(), target, false) == Seq::<MiseTask>::empty(),
        task_scope(task, target.dir()) == MiseTaskScope::Global ==> in_scope(
            tasks.push(task),
            target,
            false,
        ) == in_scope(tasks, target, false),
        task_scope(task, target.dir()) != MiseTaskScope::Global ==> in_scope(
            tasks.push(task),
            target,
            false,
        ) == in_scope(tasks, target, false).push(task),
{
    reveal(Seq::filter);
    assert(tasks.push(task).drop_last() =~= tasks);
    assert(Seq::<MiseTask>::empty().filter(|task: MiseTask| !task.hide) =~= Seq::<
        MiseTask,
    >::empty());
    assert(Seq::<MiseTask>::empty().filter(
        |task: MiseTask| task_scope(task, target.dir()) != MiseTaskScope::Global,
    ) =~= Seq::<MiseTask>::empty());
}

/// A binary that is being written is tried again twenty times.
pub proof fn law_busy_binaries_are_tried_again()
    ensures
        MAX_BUSY_RETRIES == 20,
{
}

} // verus!
