//! What git reports of a checkout.

use vstd::prelude::*;
use vstd::string::*;
use crate::paths;
use crate::paths::path_file_name;
use crate::palette::sending;
use crate::palette::sending::text_lines;
use crate::text;
use crate::text::{chars_of, copy_optional_text, prefix_at, same_optional_text, string_of};
use crate::workspace::Workspace;

verus! {

/// How the worker queue took a request.
#[derive(Clone, Copy, Debug, PartialEq, Eq, Structural)]
pub enum GitAsyncSubmission {
    /// The work began, and its result will come.
    Started,
    /// The same work runs for someone else: no result will come here.
    Coalesced,
    /// The queue is full: nothing was begun.
    Saturated,
}

/// A worktree of a repository.
#[derive(Clone, Debug, PartialEq, Eq)]
pub struct WorktreeInfo {
    pub path: String,
    pub branch: Option<String>,
}

/// The mathematical value of a [`WorktreeInfo`].
pub struct WorktreeView {
    pub path: Seq<char>,
    pub branch: Option<Seq<char>>,
}

impl DeepView for WorktreeInfo {
    type V = WorktreeView;

    open spec fn deep_view(&self) -> WorktreeView {
        WorktreeView { path: self.path@, branch: self.branch.deep_view() }
    }
}

/// The state of a checkout.
#[derive(Clone, Debug, PartialEq, Eq)]
pub struct GitInfo {
    /// The main checkout of the repository.
    pub repo_root: Option<String>,
    /// The checkout that was looked at.
    pub checkout_root: Option<String>,
    pub branch: Option<String>,
    pub is_dirty: bool,
    pub upstream: Option<String>,
}

/// The mathematical value of a [`GitInfo`].
pub struct GitInfoView {
    pub repo_root: Option<Seq<char>>,
    pub checkout_root: Option<Seq<char>>,
    pub branch: Option<Seq<char>>,
    pub is_dirty: bool,
    pub upstream: Option<Seq<char>>,
}

impl DeepView for GitInfo {
    type V = GitInfoView;

    open spec fn deep_view(&self) -> GitInfoView {
        GitInfoView {
            repo_root: self.repo_root.deep_view(),
            checkout_root: self.checkout_root.deep_view(),
            branch: self.branch.deep_view(),
            is_dirty: self.is_dirty,
            upstream: self.upstream.deep_view(),
        }
    }
}

impl Default for GitInfo {
    fn default() -> (r: GitInfo)
        ensures
            r.deep_view() == (GitInfoView {
                repo_root: None,
                checkout_root: None,
                branch: None,
                is_dirty: false,
                upstream: None,
            }),
    {
        GitInfo {
            repo_root: None,
            checkout_root: None,
            branch: None,
            is_dirty: false,
            upstream: None,
        }
    }
}

impl GitInfoView {
    /// Whether the checkout is a worktree beside the main checkout.
    pub open spec fn linked(self) -> bool {
        self.checkout_root is Some && self.checkout_root != self.repo_root
    }

    /// The directory of a worktree beside the main checkout.
    pub open spec fn worktree_path(self) -> Option<Seq<char>> {
        if self.linked() {
            self.checkout_root
        } else {
            None
        }
    }

    /// The directory that a workspace of the checkout is named after.
    pub open spec fn root(self) -> Option<Seq<char>> {
        if self.checkout_root is Some {
            self.checkout_root
        } else {
            self.repo_root
        }
    }

    /// The branch, a star for changes, and the upstream branch.
    pub open spec fn status(self) -> Seq<char> {
        match self.branch {
            None => Seq::empty(),
            Some(branch) => {
                let marked = if self.is_dirty {
                    branch + " *"@
                } else {
                    branch
                };
                match self.upstream {
                    Some(upstream) => marked + " -> "@ + upstream,
                    None => marked,
                }
            },
        }
    }
}

impl GitInfo {
    /// Whether the checkout is a worktree beside the main checkout.
    pub fn is_linked_worktree(&self) -> (r: bool)
        ensures
            r == self.deep_view().linked(),
    {
        self.checkout_root.is_some() && !same_optional_text(&self.checkout_root, &self.repo_root)
    }

    /// The directory of a worktree beside the main checkout.
    pub fn working_tree_path(&self) -> (r: Option<String>)
        ensures
            r.deep_view() == self.deep_view().worktree_path(),
    {
        if self.is_linked_worktree() {
            copy_optional_text(&self.checkout_root)
        } else {
            None
        }
    }

    /// The directory that a workspace of the checkout is named after.
    pub fn workspace_root(&self) -> (r: Option<String>)
        ensures
            r.deep_view() == self.deep_view().root(),
    {
        if self.checkout_root.is_some() {
            copy_optional_text(&self.checkout_root)
        } else {
            copy_optional_text(&self.repo_root)
        }
    }
}

/// The branch, a star for changes, and the upstream branch.
pub fn format_status(info: &GitInfo) -> (r: String)
    ensures
        r@ == info.deep_view().status(),
{
    match &info.branch {
        None => {
            let r = String::new();
            assert(r@ =~= Seq::<char>::empty());
            r
        },
        Some(branch) => {
            let mut r = branch.clone();
            if info.is_dirty {
                r.append(" *");
            }
            if let Some(upstream) = &info.upstream {
                r.append(" -> ");
                r.append(upstream.as_str());
            }
            r
        },
    }
}

/// The name of a workspace in this directory: the directory's last part.
pub open spec fn repo_name(path: Seq<char>) -> Seq<char> {
    match paths::file_name(path) {
        Some(name) => name,
        None => path,
    }
}

/// The name of a workspace in this directory: the directory's last part.
pub fn workspace_name_from_repo(path: &str) -> (r: String)
    ensures
        r@ == repo_name(path@),
{
    match path_file_name(path) {
        Some(name) => name,
        None => path.to_owned(),
    }
}

/// Takes over what git reported of the workspace's checkout.
pub fn apply_git_info_to_workspace(workspace: &mut Workspace, git_info: &GitInfo)
    ensures
        final(workspace).repo_root.deep_view() == git_info.deep_view().repo_root,
        final(workspace).branch_name.deep_view() == git_info.deep_view().branch,
        final(workspace).is_worktree == git_info.deep_view().linked(),
        final(workspace).working_tree_path.deep_view() == git_info.deep_view().worktree_path(),
        *final(workspace) == (Workspace {
            repo_root: final(workspace).repo_root,
            branch_name: final(workspace).branch_name,
            is_worktree: final(workspace).is_worktree,
            working_tree_path: final(workspace).working_tree_path,
            ..*old(workspace)
        }),
{
    workspace.repo_root = copy_optional_text(&git_info.repo_root);
    workspace.branch_name = copy_optional_text(&git_info.branch);
    workspace.is_worktree = git_info.is_linked_worktree();
    workspace.working_tree_path = git_info.working_tree_path();
}

/// The name that a checkout gives its workspace.
pub fn workspace_name_from_git_info(git_info: &GitInfo) -> (r: Option<String>)
    ensures
        r.deep_view() == match git_info.deep_view().root() {
            Some(root) => Some(repo_name(root)),
            None => None,
        },
{
    match git_info.workspace_root() {
        Some(root) => Some(workspace_name_from_repo(root.as_str())),
        None => None,
    }
}

/// The heading of a workspace: its name and the state of its checkout.
pub fn workspace_header_label(name: &str, git_info: &GitInfo) -> (r: String)
    ensures
        r@ == if git_info.deep_view().status().len() == 0 {
            name@
        } else {
            name@ + "  "@ + git_info.deep_view().status()
        },
{
    let status = format_status(git_info);
    let mut r = name.to_owned();
    if !status.as_str().is_empty() {
        r.append("  ");
        r.append(status.as_str());
    }
    r
}

/// What follows a prefix.
pub open spec fn after_prefix(line: Seq<char>, prefix: Seq<char>) -> Option<Seq<char>> {
    if text::has_prefix(line, prefix) {
        Some(line.skip(prefix.len() as int))
    } else {
        None
    }
}

/// What follows a prefix.
fn text_after(line: &str, prefix: &str) -> (r: Option<String>)
    ensures
        r.deep_view() == after_prefix(line@, prefix@),
{
    let v = chars_of(line);
    let p = chars_of(prefix);
    assert(v@.skip(0) =~= v@);
    if prefix_at(&v, 0, &p) {
        assert(v@.subrange(p@.len() as int, v@.len() as int) =~= v@.skip(p@.len() as int));
        Some(string_of(&v, p.len(), v.len()))
    } else {
        None
    }
}

/// The worktrees that a listing names, line by line: a path opens a worktree, and a branch
/// belongs to the worktree before it.
pub open spec fn listed_worktrees(lines: Seq<Seq<char>>) -> Seq<WorktreeView>
    decreases lines.len(),
{
    if lines.len() == 0 {
        Seq::empty()
    } else {
        let before = listed_worktrees(lines.drop_last());
        match after_prefix(lines.last(), "worktree "@) {
            Some(path) => before.push(WorktreeView { path, branch: None }),
            None => match after_prefix(lines.last(), "branch refs/heads/"@) {
                Some(branch) if before.len() > 0 => before.drop_last().push(
                    WorktreeView { branch: Some(branch), ..before.last() },
                ),
                _ => before,
            },
        }
    }
}

/// The worktrees in the porcelain listing of `git worktree list`.
pub fn parse_worktree_list(listing: &str) -> (r: Vec<WorktreeInfo>)
    ensures
        r.deep_view() == listed_worktrees(sending::lines_of(listing@)),
{
    let lines = text_lines(listing);
    let ghost all = lines.deep_view();
    let mut found: Vec<WorktreeInfo> = Vec::new();
    let mut i: usize = 0;
    assert(found.deep_view() =~= listed_worktrees(all.take(0)));
    while i < lines.len()
        invariant
            all == lines.deep_view(),
            i <= all.len(),
            found.deep_view() == listed_worktrees(all.take(i as int)),
        decreases all.len() - i,
    {
        assert(all.take(i + 1).drop_last() =~= all.take(i as int));
        let ghost before = found.deep_view();
        let line = lines[i].as_str();
        if let Some(path) = text_after(line, "worktree ") {
            let info = WorktreeInfo { path, branch: None };
            let ghost view = info.deep_view();
            found.push(info);
            assert(found.deep_view() =~= before.push(view));
        } else if let Some(branch) = text_after(line, "branch refs/heads/") {
            if let Some(last) = found.pop() {
                let info = WorktreeInfo { path: last.path, branch: Some(branch) };
                let ghost view = info.deep_view();
                found.push(info);
                assert(found.deep_view() =~= before.drop_last().push(view));
            }
        }
        i += 1;
    }
    assert(all.take(i as int) =~= all);
    found
}

/// A checkout is a linked worktree where it is not the repository's own; only a linked one
/// has a path of its own. A workspace is named after the checkout, and else after the
/// repository.
pub proof fn law_linked_worktrees(info: GitInfoView, root: Seq<char>, other: Seq<char>)
    ensures
        info.checkout_root == Some(root) && info.repo_root == Some(root) ==> !info.linked()
            && info.worktree_path() is None && info.root() == Some(root),
        info.checkout_root == Some(root) && info.repo_root == Some(other) && root != other
            ==> info.linked() && info.worktree_path() == Some(root) && info.root() == Some(root),
        info.checkout_root == Some(root) && info.repo_root is None ==> info.linked()
            && info.worktree_path() == Some(root),
        info.checkout_root is None ==> !info.linked() && info.worktree_path() is None && info.root()
            == info.repo_root,
{
}

/// The state of a checkout: its branch, a star where it has changes, and where it is pushed
/// to; nothing without a branch.
pub proof fn law_the_state_of_a_checkout(info: GitInfoView, branch: Seq<char>, upstream: Seq<char>)
    ensures
        info.branch is None ==> info.status() == Seq::<char>::empty(),
        info.branch == Some(branch) && !info.is_dirty && info.upstream is None ==> info.status()
            == branch,
        info.branch == Some(branch) && info.is_dirty && info.upstream is None ==> info.status()
            == branch + " *"@,
        info.branch == Some(branch) && !info.is_dirty && info.upstream == Some(upstream)
            ==> info.status() == branch + " -> "@ + upstream,
        info.branch == Some(branch) && info.is_dirty && info.upstream == Some(upstream)
            ==> info.status() == branch + " *"@ + " -> "@ + upstream,
{
}

/// A repository is called by the name of its directory; a path without a name by itself.
pub proof fn law_names_of_repositories(dir: Seq<char>, name: Seq<char>)
    requires
        dir.len() > 0,
        dir.last() != '/',
        dir.last() != '.',
        name.len() > 0,
        !name.contains('/'),
        name != "."@,
        name != ".."@,
    ensures
        repo_name(dir + seq!['/'] + name) == name,
        repo_name(name) == name,
        repo_name("/"@) == "/"@,
{
    paths::law_names_and_directories(dir, name);
}

/// Git lists a worktree with its path and then its branch: each path begins a worktree
/// without a branch, a branch belongs to the worktree before it, and other lines say nothing.
pub proof fn law_listed_worktrees(
    lines: Seq<Seq<char>>,
    path: Seq<char>,
    branch: Seq<char>,
    other: Seq<char>,
)
    ensures
        listed_worktrees(Seq::empty()) == Seq::<WorktreeView>::empty(),
        listed_worktrees(lines.push("worktree "@ + path)) == listed_worktrees(lines).push(
            WorktreeView { path, branch: None },
        ),
        listed_worktrees(
            lines.push("worktree "@ + path).push("branch refs/heads/"@ + branch),
        ) == listed_worktrees(lines).push(WorktreeView { path, branch: Some(branch) }),
        !text::has_prefix(other, "worktree "@) && !text::has_prefix(other, "branch refs/heads/"@)
            ==> listed_worktrees(lines.push(other)) == listed_worktrees(lines),
{
    reveal_strlit("worktree ");
    reveal_strlit("branch refs/heads/");
    let first = "worktree "@ + path;
    let second = "branch refs/heads/"@ + branch;
    text::law_prefixes_and_parts("worktree "@, path, Seq::empty());
    text::law_prefixes_and_parts("branch refs/heads/"@, branch, Seq::empty());
    assert(first.skip("worktree "@.len() as int) =~= path);
    assert(second.skip("branch refs/heads/"@.len() as int) =~= branch);
    assert(!text::has_prefix(second, "worktree "@)) by {
        assert(second[0] == 'b');
        assert(second.take(9)[0] == 'b');
    }
    let one = lines.push(first);
    assert(one.drop_last() =~= lines);
    assert(one.push(second).drop_last() =~= one);
    let before = listed_worktrees(one);
    assert(before.drop_last() =~= listed_worktrees(lines));
    assert(lines.push(other).drop_last() =~= lines);
}

} // verus!
