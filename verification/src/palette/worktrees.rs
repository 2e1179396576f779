//! Worktrees in the palette: their listing, and what making or removing one reports.

use vstd::prelude::*;
use vstd::string::*;
use crate::git::{GitAsyncSubmission, WorktreeInfo, WorktreeView};
use crate::palette::changes::{Notice, NoticeView};
use crate::palette::modes;
use crate::palette::modes::active_repo_root;
use crate::paths;
use crate::paths::{path_file_name, same_path};
use crate::text;
use crate::text::{decimal_text, trimmed_non_empty};
use crate::workspace::AppState;

verus! {

/// A change to the worktrees of a repository.
#[derive(Clone, Copy, Debug, PartialEq, Eq, Structural)]
pub enum WorktreeMutationKind {
    Create,
    Remove,
}

/// What the user is told of a request that did not begin.
#[derive(Clone, Copy, Debug, PartialEq, Eq)]
pub struct WorktreeMutationSubmissionFeedback {
    pub message: &'static str,
    pub is_error: bool,
    /// Whether the dialog stays, so that the same request can be made again.
    pub keep_dialog_open: bool,
}

/// The mathematical value of a [`WorktreeMutationSubmissionFeedback`].
pub struct FeedbackView {
    pub message: Seq<char>,
    pub is_error: bool,
    pub keep_dialog_open: bool,
}

impl DeepView for WorktreeMutationSubmissionFeedback {
    type V = FeedbackView;

    open spec fn deep_view(&self) -> FeedbackView {
        FeedbackView {
            message: self.message@,
            is_error: self.is_error,
            keep_dialog_open: self.keep_dialog_open,
        }
    }
}

/// What a request that did not begin says.
pub open spec fn mutation_message(
    kind: WorktreeMutationKind,
    submission: GitAsyncSubmission,
) -> Option<Seq<char>> {
    match (kind, submission) {
        (_, GitAsyncSubmission::Started) => None,
        (
            WorktreeMutationKind::Create,
            GitAsyncSubmission::Coalesced,
        ) => Some("Worktree creation is already running"@),
        (
            WorktreeMutationKind::Create,
            GitAsyncSubmission::Saturated,
        ) => Some("Git worker queue is busy; retry shortly"@),
        (
            WorktreeMutationKind::Remove,
            GitAsyncSubmission::Coalesced,
        ) => Some("Worktree removal is already running; wait for its result"@),
        (WorktreeMutationKind::Remove, GitAsyncSubmission::Saturated) => Some(
            "Git worker queue is busy; worktree was not removed. Retry shortly"@,
        ),
    }
}

/// What the user is told of a request to make or remove a worktree, unless it began. A
/// full queue is an error, and keeps the dialog open.
pub fn worktree_mutation_submission_feedback(
    kind: WorktreeMutationKind,
    submission: GitAsyncSubmission,
) -> (r: Option<WorktreeMutationSubmissionFeedback>)
    ensures
        r.deep_view() == match mutation_message(kind, submission) {
            None => None,
            Some(message) => Some(
                FeedbackView {
                    message,
                    is_error: submission == GitAsyncSubmission::Saturated,
                    keep_dialog_open: submission == GitAsyncSubmission::Saturated,
                },
            ),
        },
{
    let message = match (kind, submission) {
        (_, GitAsyncSubmission::Started) => {
            return None;
        },
        (
            WorktreeMutationKind::Create,
            GitAsyncSubmission::Coalesced,
        ) => "Worktree creation is already running",
        (
            WorktreeMutationKind::Create,
            GitAsyncSubmission::Saturated,
        ) => "Git worker queue is busy; retry shortly",
        (
            WorktreeMutationKind::Remove,
            GitAsyncSubmission::Coalesced,
        ) => "Worktree removal is already running; wait for its result",
        (
            WorktreeMutationKind::Remove,
            GitAsyncSubmission::Saturated,
        ) => "Git worker queue is busy; worktree was not removed. Retry shortly",
    };
    let busy = submission == GitAsyncSubmission::Saturated;
    Some(WorktreeMutationSubmissionFeedback { message, is_error: busy, keep_dialog_open: busy })
}

/// Why the removal of a worktree that nobody needs any more did not begin.
pub open spec fn rollback_cause(submission: GitAsyncSubmission) -> Option<Seq<char>> {
    match submission {
        GitAsyncSubmission::Started => None,
        GitAsyncSubmission::Coalesced => Some(
            "a rollback was already registered without this completion"@,
        ),
        GitAsyncSubmission::Saturated => Some("the Git worker queue is busy"@),
    }
}

/// Why the removal of a worktree that nobody needs any more did not begin.
pub fn worktree_rollback_submission_cause(submission: GitAsyncSubmission) -> (r: Option<
    &'static str,
>)
    ensures
        r is Some <==> rollback_cause(submission) is Some,
        r matches Some(cause) ==> rollback_cause(submission) == Some(cause@),
{
    match submission {
        GitAsyncSubmission::Started => None,
        GitAsyncSubmission::Coalesced => Some(
            "a rollback was already registered without this completion",
        ),
        GitAsyncSubmission::Saturated => Some("the Git worker queue is busy"),
    }
}

/// What the user is told of a worktree whose removal did not begin.
pub fn worktree_rollback_submission_failure(
    worktree_path: &str,
    submission: GitAsyncSubmission,
) -> (r: Option<String>)
    ensures
        r.deep_view() == match rollback_cause(submission) {
            None => None,
            Some(cause) => Some(
                "Created worktree "@ + worktree_path@
                    + ", but rollback could not be scheduled because "@ + cause,
            ),
        },
{
    match worktree_rollback_submission_cause(submission) {
        None => None,
        Some(cause) => {
            let mut r = "Created worktree ".to_owned();
            r.append(worktree_path);
            r.append(", but rollback could not be scheduled because ");
            r.append(cause);
            Some(r)
        },
    }
}

/// What the user is told of a change that failed.
pub fn worktree_mutation_worker_failure(kind: WorktreeMutationKind, error: &str) -> (r: String)
    ensures
        r@ == match kind {
            WorktreeMutationKind::Create => "Could not create worktree: "@,
            WorktreeMutationKind::Remove => "Could not remove worktree: "@,
        } + error@,
{
    let mut r = match kind {
        WorktreeMutationKind::Create => "Could not create worktree: ".to_owned(),
        WorktreeMutationKind::Remove => "Could not remove worktree: ".to_owned(),
    };
    r.append(error);
    r
}

/// What the user is told of a worktree that could not be removed again.
pub fn worktree_rollback_worker_failure(worktree_path: &str, error: &str) -> (r: String)
    ensures
        r@ == "Created worktree "@ + worktree_path@
            + ", but could not roll it back after its source closed: "@ + error@,
{
    let mut r = "Created worktree ".to_owned();
    r.append(worktree_path);
    r.append(", but could not roll it back after its source closed: ");
    r.append(error);
    r
}

/// Why a listing did not begin.
pub open spec fn listing_refusal(submission: GitAsyncSubmission) -> Option<Seq<char>> {
    match submission {
        GitAsyncSubmission::Started => None,
        GitAsyncSubmission::Coalesced => Some(
            "Git worktree listing coalesced unexpectedly; reopen Worktrees to retry"@,
        ),
        GitAsyncSubmission::Saturated => Some(
            "Git worker queue is busy; reopen Worktrees to retry"@,
        ),
    }
}

/// Why a listing did not begin.
pub fn worktree_listing_submission_error(submission: GitAsyncSubmission) -> (r: Option<
    &'static str,
>)
    ensures
        r is Some <==> listing_refusal(submission) is Some,
        r matches Some(message) ==> listing_refusal(submission) == Some(message@),
{
    match submission {
        GitAsyncSubmission::Started => None,
        GitAsyncSubmission::Coalesced => Some(
            "Git worktree listing coalesced unexpectedly; reopen Worktrees to retry",
        ),
        GitAsyncSubmission::Saturated => Some(
            "Git worker queue is busy; reopen Worktrees to retry",
        ),
    }
}

/// The worktrees of a repository, by the repository's directory.
pub type WorktreeListing = (String, Vec<WorktreeInfo>);

/// The listing of worktrees that the palette shows, and the request for it.
pub struct WorktreeListingState {
    /// Tells requests apart: an answer to an earlier one is dropped.
    pub generation: u64,
    pub in_flight: bool,
    pub listing: Option<WorktreeListing>,
    /// Why the last listing failed, by the repository's directory.
    pub listing_error: Option<(String, String)>,
}

/// The mathematical value of a [`WorktreeListingState`].
pub struct ListingView {
    pub generation: u64,
    pub in_flight: bool,
    pub listing: Option<(Seq<char>, Seq<WorktreeView>)>,
    pub listing_error: Option<(Seq<char>, Seq<char>)>,
}

impl DeepView for WorktreeListingState {
    type V = ListingView;

    open spec fn deep_view(&self) -> ListingView {
        ListingView {
            generation: self.generation,
            in_flight: self.in_flight,
            listing: self.listing.deep_view(),
            listing_error: self.listing_error.deep_view(),
        }
    }
}

impl ListingView {
    /// The worktrees of the repository, where they are known.
    pub open spec fn listing_of(self, repo_root: Seq<char>) -> Option<Seq<WorktreeView>> {
        match self.listing {
            Some((root, worktrees)) => if paths::is_same_path(root, repo_root) {
                Some(worktrees)
            } else {
                None
            },
            None => None,
        }
    }

    /// Why the worktrees of the repository could not be listed.
    pub open spec fn error_of(self, repo_root: Seq<char>) -> Option<Seq<char>> {
        match self.listing_error {
            Some((root, error)) => if paths::is_same_path(root, repo_root) {
                Some(error)
            } else {
                None
            },
            None => None,
        }
    }

    /// Whether the worktrees of the repository, or why they are not known, are here.
    pub open spec fn answers(self, repo_root: Seq<char>) -> bool {
        self.listing_of(repo_root) is Some || self.error_of(repo_root) is Some
    }

    /// The state after an answer to the request of this generation.
    pub open spec fn answered(
        self,
        request: u64,
        repo_root: Seq<char>,
        result: Result<Seq<WorktreeView>, Seq<char>>,
    ) -> ListingView {
        if self.generation != request {
            self
        } else {
            match result {
                Ok(worktrees) => ListingView {
                    generation: self.generation,
                    in_flight: false,
                    listing: Some((repo_root, worktrees)),
                    listing_error: None,
                },
                Err(error) => ListingView {
                    generation: self.generation,
                    in_flight: false,
                    listing: None,
                    listing_error: Some((repo_root, error)),
                },
            }
        }
    }

    /// The state without any answer, in which the running request counts no more.
    pub open spec fn invalidated(self) -> ListingView {
        ListingView {
            generation: if self.generation == u64::MAX {
                0
            } else {
                (self.generation + 1) as u64
            },
            in_flight: false,
            listing: None,
            listing_error: None,
        }
    }
}

/// A result of a listing as a mathematical value.
pub open spec fn listing_result(result: Result<Vec<WorktreeInfo>, String>) -> Result<
    Seq<WorktreeView>,
    Seq<char>,
> {
    match result {
        Ok(worktrees) => Ok(worktrees.deep_view()),
        Err(error) => Err(error@),
    }
}

/// Takes the answer to a request, and says whether it was the current one. A failed
/// listing leaves its error, not an empty list.
pub fn apply_worktree_listing_result(
    state: &mut WorktreeListingState,
    request_generation: u64,
    repo_root: String,
    result: Result<Vec<WorktreeInfo>, String>,
) -> (r: bool)
    ensures
        r == (old(state).generation == request_generation),
        final(state).deep_view() == old(state).deep_view().answered(
            request_generation,
            repo_root@,
            listing_result(result),
        ),
        !r ==> *final(state) == *old(state),
{
    if state.generation != request_generation {
        return false;
    }
    state.in_flight = false;
    match result {
        Ok(worktrees) => {
            state.listing = Some((repo_root, worktrees));
            state.listing_error = None;
        },
        Err(error) => {
            state.listing = None;
            state.listing_error = Some((repo_root, error));
        },
    }
    true
}

/// Forgets the listing and its error, and the request that may be running.
pub fn invalidate_worktree_listing_state(state: &mut WorktreeListingState)
    ensures
        final(state).deep_view() == old(state).deep_view().invalidated(),
{
    state.generation = state.generation.wrapping_add(1);
    state.listing = None;
    state.listing_error = None;
    state.in_flight = false;
}

/// A request for the worktrees of a repository.
#[derive(Clone, Debug, PartialEq, Eq)]
pub struct WorktreeListingRequest {
    pub generation: u64,
    pub repo_root: String,
    /// What the worker queue knows the request by.
    pub key: String,
}

/// Begins a request for the worktrees of the repository, unless they are known, or why
/// they are not, or a request is running.
pub fn begin_worktree_listing(state: &mut WorktreeListingState, repo_root: &str) -> (r: Option<
    WorktreeListingRequest,
>)
    ensures
        r is Some <==> !old(state).deep_view().answers(repo_root@) && !old(state).in_flight,
        r is None ==> *final(state) == *old(state),
        r matches Some(request) ==> {
            &&& request.generation == old(state).generation
            &&& request.repo_root@ == repo_root@
            &&& request.key@ == "worktree-list:"@ + text::decimal(old(state).generation as nat)
                + ":"@ + repo_root@
            &&& final(state).deep_view() == (ListingView {
                in_flight: true,
                listing_error: None,
                ..old(state).deep_view()
            })
        },
{
    let listed = match &state.listing {
        Some((cached_root, _)) => same_path(cached_root.as_str(), repo_root),
        None => false,
    };
    let failed = match &state.listing_error {
        Some((cached_root, _)) => same_path(cached_root.as_str(), repo_root),
        None => false,
    };
    if listed || failed || state.in_flight {
        return None;
    }
    state.in_flight = true;
    state.listing_error = None;
    let mut key = "worktree-list:".to_owned();
    let number = decimal_text(state.generation);
    key.append(number.as_str());
    key.append(":");
    key.append(repo_root);
    Some(
        WorktreeListingRequest {
            generation: state.generation,
            repo_root: repo_root.to_owned(),
            key,
        },
    )
}

/// Takes how the worker queue took a request, and says whether the request failed at
/// once.
pub fn finish_worktree_submission(
    state: &mut WorktreeListingState,
    repo_root: &str,
    submission: GitAsyncSubmission,
) -> (r: bool)
    ensures
        r == (submission != GitAsyncSubmission::Started),
        !r ==> *final(state) == *old(state),
        r ==> final(state).deep_view() == (ListingView {
            in_flight: false,
            listing_error: Some((repo_root@, listing_refusal(submission)->0)),
            ..old(state).deep_view()
        }),
{
    match worktree_listing_submission_error(submission) {
        None => false,
        Some(message) => {
            state.in_flight = false;
            state.listing_error = Some((repo_root.to_owned(), message.to_owned()));
            true
        },
    }
}

/// An answer that arrives after its request was forgotten changes nothing, also not while
/// a later request is running.
pub proof fn law_forgotten_requests_are_not_answered(
    state: ListingView,
    repo_root: Seq<char>,
    result: Result<Seq<WorktreeView>, Seq<char>>,
)
    ensures
        state.invalidated().answered(state.generation, repo_root, result) == state.invalidated(),
        (ListingView { in_flight: true, ..state.invalidated() }).answered(
            state.generation,
            repo_root,
            result,
        ) == (ListingView { in_flight: true, ..state.invalidated() }),
{
}

/// A failure stays visible for its repository: no new request begins before the listing
/// is forgotten, and then one can.
pub proof fn law_failure_stays_until_forgotten(
    state: ListingView,
    repo_root: Seq<char>,
    error: Seq<char>,
)
    ensures
        state.answered(state.generation, repo_root, Err(error)).answers(repo_root),
        !state.answered(state.generation, repo_root, Err(error)).invalidated().answers(repo_root),
        !state.answered(state.generation, repo_root, Err(error)).invalidated().in_flight,
{
}

/// A worktree as it is shown: its branch and its directory's name.
pub open spec fn worktree_label(info: WorktreeView) -> Seq<char> {
    let shown = match paths::file_name(info.path) {
        Some(name) => name,
        None => info.path,
    };
    match info.branch {
        Some(branch) => branch + " ("@ + shown + ")"@,
        None => shown,
    }
}

/// A worktree as it is shown: its branch and its directory's name.
pub fn worktree_entry_label(info: &WorktreeInfo) -> (r: String)
    ensures
        r@ == worktree_label(info.deep_view()),
{
    let shown = match path_file_name(info.path.as_str()) {
        Some(name) => name,
        None => info.path.clone(),
    };
    match &info.branch {
        Some(branch) => {
            let mut r = branch.clone();
            r.append(" (");
            r.append(shown.as_str());
            r.append(")");
            r
        },
        None => shown,
    }
}

/// The request to make a worktree: the branch, and what the worker queue knows the request
/// by.
#[derive(Clone, Debug, PartialEq, Eq)]
pub struct WorktreeCreateRequest {
    pub branch: String,
    pub key: String,
}

/// The request to make a worktree for the branch that was typed, unless it is blank.
pub fn worktree_create_request(repo_root: &str, typed: &str) -> (r: Option<WorktreeCreateRequest>)
    ensures
        match text::filled(typed@) {
            None => r is None,
            Some(branch) => r matches Some(request) && request.branch@ == branch && request.key@
                == "worktree-create:"@ + repo_root@ + ":"@ + branch,
        },
{
    match trimmed_non_empty(typed) {
        None => None,
        Some(branch) => {
            let mut key = "worktree-create:".to_owned();
            key.append(repo_root);
            key.append(":");
            key.append(branch.as_str());
            Some(WorktreeCreateRequest { branch, key })
        },
    }
}

/// What the worker queue knows the removal of a worktree by.
pub fn worktree_remove_key(worktree_path: &str) -> (r: String)
    ensures
        r@ == "worktree-remove:"@ + worktree_path@,
{
    let mut r = "worktree-remove:".to_owned();
    r.append(worktree_path);
    r
}

/// What follows when a worktree was to be made.
pub enum WorktreeCreated {
    /// The worktree is opened.
    Open { path: String },
    /// The workspace that asked for the worktree is gone: the worktree is removed again.
    RollBack { path: String },
    /// The user is told why there is none.
    Fail { message: String },
}

/// What follows when a worktree was to be made. `source_is_current` says whether the
/// workspace that asked for it is still there.
pub fn after_worktree_creation(result: Result<String, String>, source_is_current: bool) -> (r:
    WorktreeCreated)
    ensures
        match result {
            Ok(path) => if source_is_current {
                r == (WorktreeCreated::Open { path })
            } else {
                r == (WorktreeCreated::RollBack { path })
            },
            Err(error) => r matches WorktreeCreated::Fail { message } && message@
                == "Could not create worktree: "@ + error@,
        },
{
    match result {
        Ok(path) => {
            if source_is_current {
                WorktreeCreated::Open { path }
            } else {
                WorktreeCreated::RollBack { path }
            }
        },
        Err(error) => WorktreeCreated::Fail {
            message: worktree_mutation_worker_failure(
                WorktreeMutationKind::Create,
                error.as_str(),
            ),
        },
    }
}

/// What the user is told once a worktree that nobody needs any more was removed, or could
/// not be.
pub fn worktree_rollback_notice(worktree_path: &str, result: &Result<(), String>) -> (r: Notice)
    ensures
        r.deep_view() == match *result {
            Ok(_) => NoticeView {
                message: "Removed worktree created for a closed workspace"@,
                is_error: false,
            },
            Err(error) => NoticeView {
                message: "Created worktree "@ + worktree_path@
                    + ", but could not roll it back after its source closed: "@ + error@,
                is_error: true,
            },
        },
{
    match result {
        Ok(_) => Notice {
            message: "Removed worktree created for a closed workspace".to_owned(),
            is_error: false,
        },
        Err(error) => Notice {
            message: worktree_rollback_worker_failure(worktree_path, error.as_str()),
            is_error: true,
        },
    }
}

/// What the worker queue knows the removal of a worktree that nobody needs any more by.
pub fn worktree_rollback_key(worktree_path: &str) -> (r: String)
    ensures
        r@ == "worktree-rollback:"@ + worktree_path@,
{
    let mut r = "worktree-rollback:".to_owned();
    r.append(worktree_path);
    r
}

/// The repository that a worktree is made of; else what the user is told.
pub fn worktree_source(state: &AppState) -> (r: Result<String, &'static str>)
    ensures
        match modes::repository_of(*state) {
            Some(root) => r matches Ok(found) && found@ == root,
            None => r matches Err(message) && message@
                == "Create worktree requires a git repository"@,
        },
{
    match active_repo_root(state) {
        Some(root) => Ok(root),
        None => Err("Create worktree requires a git repository"),
    }
}

/// An answer to the running request is kept: the worktrees of the repository, which are then
/// known under every text of its path, or why they are not known. Nothing runs any more.
pub proof fn law_answers_are_kept(
    state: ListingView,
    root: Seq<char>,
    list: Seq<WorktreeView>,
    error: Seq<char>,
)
    ensures
        ({
            let good = state.answered(state.generation, root, Ok(list));
            let bad = state.answered(state.generation, root, Err(error));
            &&& good.listing_of(root) == Some(list)
            &&& root.len() > 0 ==> good.listing_of(root.push('/')) == Some(list)
            &&& good.error_of(root) is None
            &&& !good.in_flight && !bad.in_flight
            &&& bad.listing_of(root) is None
            &&& bad.error_of(root) == Some(error)
            &&& good.generation == state.generation && bad.generation == state.generation
            &&& good.answers(root) && bad.answers(root)
        }),
{
    if root.len() > 0 {
        paths::law_components(root, root);
    }
}

/// A late answer is dropped, and what is known of one repository says nothing of another.
pub proof fn law_answers_belong_to_their_request(
    state: ListingView,
    request: u64,
    root: Seq<char>,
    other: Seq<char>,
    list: Seq<WorktreeView>,
    result: Result<Seq<WorktreeView>, Seq<char>>,
)
    ensures
        request != state.generation ==> state.answered(request, root, result) == state,
        paths::components(root) != paths::components(other) ==> state.answered(
            state.generation,
            root,
            Ok(list),
        ).listing_of(other) is None,
        paths::components(root) != paths::components(other) ==> !state.answered(
            state.generation,
            root,
            Ok(list),
        ).answers(other),
        state.invalidated().listing is None && state.invalidated().listing_error is None,
        !state.invalidated().in_flight,
        state.invalidated().generation != state.generation,
{
}

/// A worktree is called by its branch and its directory, and without a branch by its
/// directory.
pub proof fn law_names_of_worktrees(
    dir: Seq<char>,
    name: Seq<char>,
    branch: Seq<char>,
    own: Option<Seq<char>>,
)
    requires
        dir.len() > 0,
        dir.last() != '/',
        dir.last() != '.',
        name.len() > 0,
        !name.contains('/'),
        name != "."@,
        name != ".."@,
    ensures
        worktree_label(WorktreeView { path: dir + seq!['/'] + name, branch: Some(branch) })
            == branch + " ("@ + name + ")"@,
        worktree_label(WorktreeView { path: dir + seq!['/'] + name, branch: None }) == name,
{
    paths::law_names_and_directories(dir, name);
}

/// What the user is told of a request that did not begin.
pub proof fn law_requests_that_do_not_begin(kind: WorktreeMutationKind)
    ensures
        mutation_message(kind, GitAsyncSubmission::Started) is None,
        mutation_message(WorktreeMutationKind::Create, GitAsyncSubmission::Coalesced) == Some(
            "Worktree creation is already running"@,
        ),
        mutation_message(WorktreeMutationKind::Create, GitAsyncSubmission::Saturated) == Some(
            "Git worker queue is busy; retry shortly"@,
        ),
        mutation_message(WorktreeMutationKind::Remove, GitAsyncSubmission::Coalesced) == Some(
            "Worktree removal is already running; wait for its result"@,
        ),
        mutation_message(WorktreeMutationKind::Remove, GitAsyncSubmission::Saturated) == Some(
            "Git worker queue is busy; worktree was not removed. Retry shortly"@,
        ),
        rollback_cause(GitAsyncSubmission::Started) is None,
        rollback_cause(GitAsyncSubmission::Coalesced) == Some(
            "a rollback was already registered without this completion"@,
        ),
        rollback_cause(GitAsyncSubmission::Saturated) == Some("the Git worker queue is busy"@),
        listing_refusal(GitAsyncSubmission::Started) is None,
        listing_refusal(GitAsyncSubmission::Coalesced) == Some(
            "Git worktree listing coalesced unexpectedly; reopen Worktrees to retry"@,
        ),
        listing_refusal(GitAsyncSubmission::Saturated) == Some(
            "Git worker queue is busy; reopen Worktrees to retry"@,
        ),
{
}

} // verus!
