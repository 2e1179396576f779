//! Changes to the stored projects, templates and views, and what the user is told of them.

use vstd::prelude::*;
use vstd::string::*;
use crate::git::GitAsyncSubmission;
use crate::palette::records::{RegisteredProject, TemplateKind};
use crate::palette::stores::StoreKind;
use crate::palette::templates;
use crate::palette::templates::{template_kind_label, template_kind_label_lower};
use crate::text;
use crate::text::{same_ignoring_ascii_case, trimmed_non_empty};

verus! {

/// A change to what is stored.
#[derive(Clone, Copy, Debug, PartialEq, Eq, Structural)]
pub enum StoredChange {
    ForgetProject,
    MarkProjectOpened,
    SaveTabTemplate,
    SaveWorkspaceTemplate,
    SaveView,
    DeleteTemplate(TemplateKind),
    DeleteView,
}

/// What the user is told, and whether it is an error.
#[derive(Clone, Debug, PartialEq, Eq)]
pub struct Notice {
    pub message: String,
    pub is_error: bool,
}

/// The mathematical value of a [`Notice`].
pub struct NoticeView {
    pub message: Seq<char>,
    pub is_error: bool,
}

impl DeepView for Notice {
    type V = NoticeView;

    open spec fn deep_view(&self) -> NoticeView {
        NoticeView { message: self.message@, is_error: self.is_error }
    }
}

impl StoredChange {
    /// What the worker queue knows the change by.
    pub open spec fn key(self, name: Seq<char>) -> Seq<char> {
        match self {
            StoredChange::ForgetProject => "palette-forget-project:"@ + name,
            StoredChange::MarkProjectOpened => "palette-mark-project-opened:"@ + name,
            StoredChange::SaveTabTemplate => "palette-save-tab-template:"@ + name,
            StoredChange::SaveWorkspaceTemplate => "palette-save-workspace-template:"@ + name,
            StoredChange::SaveView => "palette-save-view:"@ + name,
            StoredChange::DeleteTemplate(kind) => "palette-delete-template:"@
                + templates::kind_title(kind) + ":"@ + name,
            StoredChange::DeleteView => "palette-delete-view:"@ + name,
        }
    }

    /// What the worker queue knows the change by. `name` is the project's id, or the name
    /// of the template or view.
    pub fn request_key(self, name: &str) -> (r: String)
        ensures
            r@ == self.key(name@),
    {
        let mut r = match self {
            StoredChange::ForgetProject => "palette-forget-project:".to_owned(),
            StoredChange::MarkProjectOpened => "palette-mark-project-opened:".to_owned(),
            StoredChange::SaveTabTemplate => "palette-save-tab-template:".to_owned(),
            StoredChange::SaveWorkspaceTemplate => "palette-save-workspace-template:".to_owned(),
            StoredChange::SaveView => "palette-save-view:".to_owned(),
            StoredChange::DeleteTemplate(kind) => {
                let mut r = "palette-delete-template:".to_owned();
                r.append(template_kind_label(kind));
                r.append(":");
                r
            },
            StoredChange::DeleteView => "palette-delete-view:".to_owned(),
        };
        r.append(name);
        r
    }

    /// What the user is told of a change that did not begin.
    pub open spec fn refusal(self, submission: GitAsyncSubmission) -> Option<NoticeView> {
        match submission {
            GitAsyncSubmission::Started => None,
            GitAsyncSubmission::Coalesced => Some(
                NoticeView {
                    message: match self {
                        StoredChange::ForgetProject => "Project removal is already running"@,
                        StoredChange::MarkProjectOpened =>
                        "Project history update is already running"@,
                        StoredChange::SaveTabTemplate => "Tab template save is already running"@,
                        StoredChange::SaveWorkspaceTemplate =>
                        "Workspace template save is already running"@,
                        StoredChange::SaveView => "View save is already running"@,
                        StoredChange::DeleteTemplate(_) => "Template deletion is already running"@,
                        StoredChange::DeleteView => "View deletion is already running"@,
                    },
                    is_error: false,
                },
            ),
            GitAsyncSubmission::Saturated => Some(
                NoticeView {
                    message: match self {
                        StoredChange::ForgetProject =>
                        "Project update queue is busy; retry shortly"@,
                        StoredChange::MarkProjectOpened =>
                        "Project history queue is busy; retry shortly"@,
                        StoredChange::SaveTabTemplate =>
                        "Template save queue is busy; retry shortly"@,
                        StoredChange::SaveWorkspaceTemplate =>
                        "Template save queue is busy; retry shortly"@,
                        StoredChange::SaveView => "View save queue is busy; retry shortly"@,
                        StoredChange::DeleteTemplate(_) =>
                        "Template delete queue is busy; retry shortly"@,
                        StoredChange::DeleteView => "View delete queue is busy; retry shortly"@,
                    },
                    is_error: true,
                },
            ),
        }
    }

    /// What the user is told of a change that did not begin: one that is running already
    /// is no error, a full queue is.
    pub fn submission_notice(self, submission: GitAsyncSubmission) -> (r: Option<Notice>)
        ensures
            r.deep_view() == self.refusal(submission),
    {
        match submission {
            GitAsyncSubmission::Started => None,
            GitAsyncSubmission::Coalesced => {
                let message = match self {
                    StoredChange::ForgetProject => "Project removal is already running",
                    StoredChange::MarkProjectOpened => "Project history update is already running",
                    StoredChange::SaveTabTemplate => "Tab template save is already running",
                    StoredChange::SaveWorkspaceTemplate =>
                    "Workspace template save is already running",
                    StoredChange::SaveView => "View save is already running",
                    StoredChange::DeleteTemplate(_) => "Template deletion is already running",
                    StoredChange::DeleteView => "View deletion is already running",
                };
                Some(Notice { message: message.to_owned(), is_error: false })
            },
            GitAsyncSubmission::Saturated => {
                let message = match self {
                    StoredChange::ForgetProject => "Project update queue is busy; retry shortly",
                    StoredChange::MarkProjectOpened =>
                    "Project history queue is busy; retry shortly",
                    StoredChange::SaveTabTemplate => "Template save queue is busy; retry shortly",
                    StoredChange::SaveWorkspaceTemplate =>
                    "Template save queue is busy; retry shortly",
                    StoredChange::SaveView => "View save queue is busy; retry shortly",
                    StoredChange::DeleteTemplate(_) =>
                    "Template delete queue is busy; retry shortly",
                    StoredChange::DeleteView => "View delete queue is busy; retry shortly",
                };
                Some(Notice { message: message.to_owned(), is_error: true })
            },
        }
    }

    /// What the user is told of a change that ended. `found` is whether what was to be
    /// removed was there.
    pub open spec fn ending(self, name: Seq<char>, result: Result<bool, Seq<char>>) -> Option<
        NoticeView,
    > {
        match result {
            Err(error) => Some(
                NoticeView {
                    message: match self {
                        StoredChange::ForgetProject => "Could not forget project: "@,
                        StoredChange::MarkProjectOpened => "Could not update project history: "@,
                        StoredChange::SaveTabTemplate => "Could not save tab template: "@,
                        StoredChange::SaveWorkspaceTemplate =>
                        "Could not save workspace template: "@,
                        StoredChange::SaveView => "Could not save view: "@,
                        StoredChange::DeleteTemplate(_) => "Could not delete template: "@,
                        StoredChange::DeleteView => "Could not delete saved view: "@,
                    } + error,
                    is_error: true,
                },
            ),
            Ok(true) => if self == StoredChange::ForgetProject {
                Some(NoticeView { message: "Registered project forgotten"@, is_error: false })
            } else {
                None
            },
            Ok(false) => match self {
                StoredChange::ForgetProject => Some(
                    NoticeView { message: "Registered project was not found"@, is_error: true },
                ),
                StoredChange::DeleteTemplate(kind) => Some(
                    NoticeView {
                        message: match kind {
                            TemplateKind::Tab => "tab"@,
                            TemplateKind::Workspace => "workspace"@,
                        } + " template \""@ + name + "\" no longer exists"@,
                        is_error: true,
                    },
                ),
                StoredChange::DeleteView => Some(
                    NoticeView {
                        message: "Saved view \""@ + name + "\" no longer exists"@,
                        is_error: true,
                    },
                ),
                _ => None,
            },
        }
    }

    /// What the user is told of a change that ended. The result says whether what was to
    /// be removed was there; a change that removes nothing ends with `true`.
    pub fn result_notice(self, name: &str, result: &Result<bool, String>) -> (r: Option<Notice>)
        ensures
            r.deep_view() == self.ending(
                name@,
                match *result {
                    Ok(found) => Ok(found),
                    Err(error) => Err(error@),
                },
            ),
    {
        match result {
            Err(error) => {
                let mut message = match self {
                    StoredChange::ForgetProject => "Could not forget project: ".to_owned(),
                    StoredChange::MarkProjectOpened => "Could not update project history: ".to_owned(),
                    StoredChange::SaveTabTemplate => "Could not save tab template: ".to_owned(),
                    StoredChange::SaveWorkspaceTemplate =>
                    "Could not save workspace template: ".to_owned(),
                    StoredChange::SaveView => "Could not save view: ".to_owned(),
                    StoredChange::DeleteTemplate(_) => "Could not delete template: ".to_owned(),
                    StoredChange::DeleteView => "Could not delete saved view: ".to_owned(),
                };
                message.append(error.as_str());
                Some(Notice { message, is_error: true })
            },
            Ok(true) => match self {
                StoredChange::ForgetProject => Some(
                    Notice {
                        message: "Registered project forgotten".to_owned(),
                        is_error: false,
                    },
                ),
                _ => None,
            },
            Ok(false) => match self {
                StoredChange::ForgetProject => Some(
                    Notice {
                        message: "Registered project was not found".to_owned(),
                        is_error: true,
                    },
                ),
                StoredChange::DeleteTemplate(kind) => {
                    let mut message = template_kind_label_lower(kind).to_owned();
                    message.append(" template \"");
                    message.append(name);
                    message.append("\" no longer exists");
                    Some(Notice { message, is_error: true })
                },
                StoredChange::DeleteView => {
                    let mut message = "Saved view \"".to_owned();
                    message.append(name);
                    message.append("\" no longer exists");
                    Some(Notice { message, is_error: true })
                },
                _ => None,
            },
        }
    }
}

/// The question before a project is forgotten.
pub fn forget_project_question(project: &RegisteredProject) -> (r: String)
    ensures
        r@ == "Remove "@ + project.display_name@ + " on "@ + project.host.deep_view().label()
            + " at "@ + project.checkout_root@
            + " from the registered project list? The checkout will not be changed."@,
{
    let host = project.host.label();
    let mut r = "Remove ".to_owned();
    r.append(project.display_name.as_str());
    r.append(" on ");
    r.append(host.as_str());
    r.append(" at ");
    r.append(project.checkout_root.as_str());
    r.append(" from the registered project list? The checkout will not be changed.");
    r
}

/// The question before a template is deleted.
pub fn delete_template_question(kind: TemplateKind, name: &str) -> (r: String)
    ensures
        r@ == "Delete "@ + match kind {
            TemplateKind::Tab => "tab"@,
            TemplateKind::Workspace => "workspace"@,
        } + " template \""@ + name@ + "\"?"@,
{
    let mut r = "Delete ".to_owned();
    r.append(template_kind_label_lower(kind));
    r.append(" template \"");
    r.append(name);
    r.append("\"?");
    r
}

/// The question before a saved view is deleted.
pub fn delete_view_question(name: &str) -> (r: String)
    ensures
        r@ == "Delete saved view \""@ + name@ + "\"?"@,
{
    let mut r = "Delete saved view \"".to_owned();
    r.append(name);
    r.append("\"?");
    r
}

/// The question before a worktree is removed.
pub fn remove_worktree_question(worktree_path: &str) -> (r: String)
    ensures
        r@ == "Remove worktree at "@ + worktree_path@ + "?"@,
{
    let mut r = "Remove worktree at ".to_owned();
    r.append(worktree_path);
    r.append("?");
    r
}

/// The name that was typed into a dialog, unless it is blank.
pub fn accepted_name(typed: &str) -> (r: Option<String>)
    ensures
        r.deep_view() == text::filled(typed@),
{
    trimmed_non_empty(typed)
}

/// Whether the dashboard shows the view that was deleted, whatever the case of ASCII
/// letters in its name.
pub fn shows_deleted_view(selected: &Option<String>, name: &str) -> (r: bool)
    ensures
        r == match selected.deep_view() {
            Some(selected) => text::ascii_lowered(selected) == text::ascii_lowered(name@),
            None => false,
        },
{
    match selected {
        Some(selected) => same_ignoring_ascii_case(selected.as_str(), name),
        None => false,
    }
}

impl StoredChange {
    /// The list that a change which ended makes out of date.
    pub open spec fn outdated(self, result: Result<bool, Seq<char>>) -> Option<StoreKind> {
        match (self, result) {
            (StoredChange::ForgetProject, Ok(true)) => Some(StoreKind::Projects),
            (StoredChange::SaveTabTemplate, Ok(_)) => Some(StoreKind::Templates),
            (StoredChange::SaveWorkspaceTemplate, Ok(_)) => Some(StoreKind::Templates),
            (StoredChange::DeleteTemplate(_), Ok(true)) => Some(StoreKind::Templates),
            (StoredChange::SaveView, Ok(_)) => Some(StoreKind::Views),
            (StoredChange::DeleteView, Ok(true)) => Some(StoreKind::Views),
            _ => None,
        }
    }

    /// The list that has to be read again once a change ended: the one that was changed.
    pub fn outdated_store(self, result: &Result<bool, String>) -> (r: Option<StoreKind>)
        ensures
            r == self.outdated(
                match *result {
                    Ok(found) => Ok(found),
                    Err(error) => Err(error@),
                },
            ),
    {
        match result {
            Err(_) => None,
            Ok(found) => match self {
                StoredChange::ForgetProject => {
                    if *found {
                        Some(StoreKind::Projects)
                    } else {
                        None
                    }
                },
                StoredChange::MarkProjectOpened => None,
                StoredChange::SaveTabTemplate | StoredChange::SaveWorkspaceTemplate => Some(
                    StoreKind::Templates,
                ),
                StoredChange::DeleteTemplate(_) => {
                    if *found {
                        Some(StoreKind::Templates)
                    } else {
                        None
                    }
                },
                StoredChange::SaveView => Some(StoreKind::Views),
                StoredChange::DeleteView => {
                    if *found {
                        Some(StoreKind::Views)
                    } else {
                        None
                    }
                },
            },
        }
    }
}

/// A change that failed makes no list out of date.
pub proof fn law_failed_changes_leave_the_lists(change: StoredChange, error: Seq<char>)
    ensures
        change.outdated(Err(error)) is None,
{
}

/// A change that began needs no word; one that is running already is told as news, and a full
/// queue as an error.
pub proof fn law_changes_that_do_not_begin(change: StoredChange)
    ensures
        change.refusal(GitAsyncSubmission::Started) is None,
        change.refusal(GitAsyncSubmission::Coalesced) matches Some(notice) && !notice.is_error,
        change.refusal(GitAsyncSubmission::Saturated) matches Some(notice) && notice.is_error,
{
}

/// A change that failed is told as an error that ends in its cause. One that worked needs no
/// word, but for a project that was forgotten; what was to be removed and was not there is an
/// error.
pub proof fn law_endings_of_changes(change: StoredChange, name: Seq<char>, error: Seq<char>)
    ensures
        change.ending(name, Err(error)) matches Some(notice) && notice.is_error && (exists|
            head: Seq<char>,
        |
            notice.message == #[trigger] (head + error)),
        StoredChange::ForgetProject.ending(name, Ok(true)) == Some(
            NoticeView { message: "Registered project forgotten"@, is_error: false },
        ),
        change != StoredChange::ForgetProject ==> change.ending(name, Ok(true)) is None,
        StoredChange::ForgetProject.ending(name, Ok(false)) == Some(
            NoticeView { message: "Registered project was not found"@, is_error: true },
        ),
        StoredChange::DeleteView.ending(name, Ok(false)) == Some(
            NoticeView {
                message: "Saved view \""@ + name + "\" no longer exists"@,
                is_error: true,
            },
        ),
        StoredChange::DeleteTemplate(TemplateKind::Tab).ending(name, Ok(false)) == Some(
            NoticeView {
                message: "tab"@ + " template \""@ + name + "\" no longer exists"@,
                is_error: true,
            },
        ),
        StoredChange::DeleteTemplate(TemplateKind::Workspace).ending(name, Ok(false)) == Some(
            NoticeView {
                message: "workspace"@ + " template \""@ + name + "\" no longer exists"@,
                is_error: true,
            },
        ),
{
}

/// What is told of each change that failed.
pub proof fn law_failures_of_changes(name: Seq<char>, error: Seq<char>, kind: TemplateKind)
    ensures
        StoredChange::ForgetProject.ending(name, Err(error))->0.message
            == "Could not forget project: "@ + error,
        StoredChange::MarkProjectOpened.ending(name, Err(error))->0.message
            == "Could not update project history: "@ + error,
        StoredChange::SaveTabTemplate.ending(name, Err(error))->0.message
            == "Could not save tab template: "@ + error,
        StoredChange::SaveWorkspaceTemplate.ending(name, Err(error))->0.message
            == "Could not save workspace template: "@ + error,
        StoredChange::SaveView.ending(name, Err(error))->0.message == "Could not save view: "@
            + error,
        StoredChange::DeleteTemplate(kind).ending(name, Err(error))->0.message
            == "Could not delete template: "@ + error,
        StoredChange::DeleteView.ending(name, Err(error))->0.message
            == "Could not delete saved view: "@ + error,
{
}

/// Changes are known by what they do and to what; those of different names are told apart.
pub proof fn law_keys_of_changes(change: StoredChange, a: Seq<char>, b: Seq<char>)
    ensures
        change.key(a) == change.key(b) ==> a == b,
        StoredChange::ForgetProject.key(a) == "palette-forget-project:"@ + a,
        StoredChange::MarkProjectOpened.key(a) == "palette-mark-project-opened:"@ + a,
        StoredChange::SaveTabTemplate.key(a) == "palette-save-tab-template:"@ + a,
        StoredChange::SaveWorkspaceTemplate.key(a) == "palette-save-workspace-template:"@ + a,
        StoredChange::SaveView.key(a) == "palette-save-view:"@ + a,
        StoredChange::DeleteView.key(a) == "palette-delete-view:"@ + a,
        StoredChange::DeleteTemplate(TemplateKind::Tab).key(a) == "palette-delete-template:"@
            + "Tab"@ + ":"@ + a,
        StoredChange::DeleteTemplate(TemplateKind::Workspace).key(a) == "palette-delete-template:"@
            + "Workspace"@ + ":"@ + a,
{
    if change.key(a) == change.key(b) {
        let head = change.key(Seq::empty());
        assert(head + a =~= change.key(a));
        assert(head + b =~= change.key(b));
        assert(a =~= change.key(a).skip(head.len() as int));
        assert(b =~= change.key(b).skip(head.len() as int));
    }
}

/// A list is read again where a change really changed it.
pub proof fn law_changed_lists_are_read_again(kind: TemplateKind, any: bool)
    ensures
        StoredChange::ForgetProject.outdated(Ok(true)) == Some(StoreKind::Projects),
        StoredChange::ForgetProject.outdated(Ok(false)) is None,
        StoredChange::MarkProjectOpened.outdated(Ok(any)) is None,
        StoredChange::SaveTabTemplate.outdated(Ok(any)) == Some(StoreKind::Templates),
        StoredChange::SaveWorkspaceTemplate.outdated(Ok(any)) == Some(StoreKind::Templates),
        StoredChange::DeleteTemplate(kind).outdated(Ok(true)) == Some(StoreKind::Templates),
        StoredChange::DeleteTemplate(kind).outdated(Ok(false)) is None,
        StoredChange::SaveView.outdated(Ok(any)) == Some(StoreKind::Views),
        StoredChange::DeleteView.outdated(Ok(true)) == Some(StoreKind::Views),
        StoredChange::DeleteView.outdated(Ok(false)) is None,
{
}

/// A change that is under way is said to be running already, and one that the
/// queue has no room for is to be tried again shortly, each under its own name.
pub proof fn law_what_is_said_of_changes_that_do_not_begin(kind: TemplateKind)
    ensures
        StoredChange::ForgetProject.refusal(GitAsyncSubmission::Coalesced)->0.message
            == "Project removal is already running"@,
        StoredChange::MarkProjectOpened.refusal(GitAsyncSubmission::Coalesced)->0.message
            == "Project history update is already running"@,
        StoredChange::SaveTabTemplate.refusal(GitAsyncSubmission::Coalesced)->0.message
            == "Tab template save is already running"@,
        StoredChange::SaveWorkspaceTemplate.refusal(GitAsyncSubmission::Coalesced)->0.message
            == "Workspace template save is already running"@,
        StoredChange::SaveView.refusal(GitAsyncSubmission::Coalesced)->0.message
            == "View save is already running"@,
        StoredChange::DeleteTemplate(kind).refusal(GitAsyncSubmission::Coalesced)->0.message
            == "Template deletion is already running"@,
        StoredChange::DeleteView.refusal(GitAsyncSubmission::Coalesced)->0.message
            == "View deletion is already running"@,
        StoredChange::ForgetProject.refusal(GitAsyncSubmission::Saturated)->0.message
            == "Project update queue is busy; retry shortly"@,
        StoredChange::MarkProjectOpened.refusal(GitAsyncSubmission::Saturated)->0.message
            == "Project history queue is busy; retry shortly"@,
        StoredChange::SaveTabTemplate.refusal(GitAsyncSubmission::Saturated)->0.message
            == "Template save queue is busy; retry shortly"@,
        StoredChange::SaveWorkspaceTemplate.refusal(GitAsyncSubmission::Saturated)->0.message
            == "Template save queue is busy; retry shortly"@,
        StoredChange::SaveView.refusal(GitAsyncSubmission::Saturated)->0.message
            == "View save queue is busy; retry shortly"@,
        StoredChange::DeleteTemplate(kind).refusal(GitAsyncSubmission::Saturated)->0.message
            == "Template delete queue is busy; retry shortly"@,
        StoredChange::DeleteView.refusal(GitAsyncSubmission::Saturated)->0.message
            == "View delete queue is busy; retry shortly"@,
{
}

} // verus!
