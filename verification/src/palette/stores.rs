//! The lists that the palette reads from files: registered projects, templates and saved
//! views. A worker reads the files; the palette shows what the last answer brought.

use vstd::prelude::*;
use vstd::string::*;
use crate::git::GitAsyncSubmission;
use crate::palette::PaletteMode;
use crate::text;
use crate::text::decimal_text;

verus! {

/// A list that the palette reads from a file.
#[derive(Clone, Copy, Debug, PartialEq, Eq, Structural)]
pub enum StoreKind {
    Projects,
    Templates,
    Views,
}

/// A list with the request for it.
pub struct PaletteStore<T> {
    /// What the last request brought; an error is not an empty list.
    pub value: Option<Result<T, String>>,
    pub in_flight: bool,
    /// Tells requests apart: an answer to an earlier one is dropped.
    pub generation: u64,
}

impl StoreKind {
    /// Whether the palette shows the list in this mode.
    pub open spec fn shown_in(self, mode: PaletteMode) -> bool {
        match self {
            StoreKind::Projects => true,
            StoreKind::Templates => mode == PaletteMode::TemplateTabList || mode
                == PaletteMode::TemplateWorkspaceList || mode == PaletteMode::TemplateDeleteList,
            StoreKind::Views => mode == PaletteMode::SavedViewList || mode
                == PaletteMode::SavedViewDeleteList,
        }
    }

    /// Whether the palette needs the list in this mode.
    pub fn needed_in(self, mode: PaletteMode) -> (r: bool)
        ensures
            r == self.shown_in(mode),
    {
        match self {
            StoreKind::Projects => true,
            StoreKind::Templates => mode == PaletteMode::TemplateTabList || mode
                == PaletteMode::TemplateWorkspaceList || mode == PaletteMode::TemplateDeleteList,
            StoreKind::Views => mode == PaletteMode::SavedViewList || mode
                == PaletteMode::SavedViewDeleteList,
        }
    }

    /// What the worker queue knows requests for the list by.
    pub open spec fn key_prefix(self) -> Seq<char> {
        match self {
            StoreKind::Projects => "palette-projects:"@,
            StoreKind::Templates => "palette-templates:"@,
            StoreKind::Views => "palette-views:"@,
        }
    }

    /// What is shown in place of the list where its request did not begin.
    pub open spec fn refusal(self, submission: GitAsyncSubmission) -> Option<Seq<char>> {
        match (self, submission) {
            (_, GitAsyncSubmission::Started) => None,
            (StoreKind::Projects, GitAsyncSubmission::Coalesced) => Some(
                "project worker was already registered without this palette; reopen to retry"@,
            ),
            (StoreKind::Templates, GitAsyncSubmission::Coalesced) => Some(
                "template worker was already registered without this palette; reopen to retry"@,
            ),
            (StoreKind::Views, GitAsyncSubmission::Coalesced) => Some(
                "saved-views worker was already registered without this palette; reopen to retry"@,
            ),
            (StoreKind::Projects, GitAsyncSubmission::Saturated) => Some(
                "worker queue is busy; reopen the palette to retry"@,
            ),
            (StoreKind::Templates, GitAsyncSubmission::Saturated) => Some(
                "worker queue is busy; reopen Templates to retry"@,
            ),
            (StoreKind::Views, GitAsyncSubmission::Saturated) => Some(
                "worker queue is busy; reopen Saved Views to retry"@,
            ),
        }
    }

    /// What is shown in place of the list where its request did not begin.
    pub fn refusal_message(self, submission: GitAsyncSubmission) -> (r: Option<String>)
        ensures
            r.deep_view() == self.refusal(submission),
    {
        let message = match (self, submission) {
            (_, GitAsyncSubmission::Started) => {
                return None;
            },
            (
                StoreKind::Projects,
                GitAsyncSubmission::Coalesced,
            ) => "project worker was already registered without this palette; reopen to retry",
            (
                StoreKind::Templates,
                GitAsyncSubmission::Coalesced,
            ) => "template worker was already registered without this palette; reopen to retry",
            (
                StoreKind::Views,
                GitAsyncSubmission::Coalesced,
            ) => "saved-views worker was already registered without this palette; reopen to retry",
            (
                StoreKind::Projects,
                GitAsyncSubmission::Saturated,
            ) => "worker queue is busy; reopen the palette to retry",
            (
                StoreKind::Templates,
                GitAsyncSubmission::Saturated,
            ) => "worker queue is busy; reopen Templates to retry",
            (
                StoreKind::Views,
                GitAsyncSubmission::Saturated,
            ) => "worker queue is busy; reopen Saved Views to retry",
        };
        Some(message.to_owned())
    }
}

impl<T> PaletteStore<T> {
    /// Whether a request for the list is due.
    pub open spec fn wants_request(self) -> bool {
        self.value is None && !self.in_flight
    }

    /// The store while its request runs.
    pub open spec fn requested(self) -> PaletteStore<T> {
        PaletteStore { in_flight: true, ..self }
    }

    /// The store after the answer to the request of this generation.
    pub open spec fn answered(self, request: u64, result: Result<T, String>) -> PaletteStore<T> {
        if self.generation != request {
            self
        } else {
            PaletteStore { value: Some(result), in_flight: false, generation: self.generation }
        }
    }

    /// The store without a list, in which the running request counts no more.
    pub open spec fn invalidated(self) -> PaletteStore<T> {
        PaletteStore {
            value: None,
            in_flight: false,
            generation: if self.generation == u64::MAX {
                0
            } else {
                (self.generation + 1) as u64
            },
        }
    }

    /// A store that was never filled.
    pub fn new() -> (r: PaletteStore<T>)
        ensures
            r == (PaletteStore::<T> { value: None, in_flight: false, generation: 0 }),
    {
        PaletteStore { value: None, in_flight: false, generation: 0 }
    }

    /// Forgets the list and the request that may be running.
    pub fn invalidate(&mut self)
        ensures
            *final(self) == old(self).invalidated(),
    {
        self.generation = self.generation.wrapping_add(1);
        self.value = None;
        self.in_flight = false;
    }

    /// Begins a request for the list where one is due, and gives its generation.
    pub fn begin(&mut self) -> (r: Option<u64>)
        ensures
            r == if old(self).wants_request() {
                Some(old(self).generation)
            } else {
                None
            },
            *final(self) == if old(self).wants_request() {
                old(self).requested()
            } else {
                *old(self)
            },
    {
        if self.value.is_some() || self.in_flight {
            None
        } else {
            self.in_flight = true;
            Some(self.generation)
        }
    }

    /// Takes the answer to a request, unless the request was forgotten.
    pub fn finish(&mut self, request: u64, result: Result<T, String>)
        ensures
            *final(self) == old(self).answered(request, result),
    {
        if self.generation != request {
            return ;
        }
        self.in_flight = false;
        self.value = Some(result);
    }

    /// Takes how the worker queue took a request: one that did not begin leaves its error
    /// in place of the list.
    pub fn finish_submission(
        &mut self,
        kind: StoreKind,
        request: u64,
        submission: GitAsyncSubmission,
    )
        ensures
            match kind.refusal(submission) {
                None => *final(self) == *old(self),
                Some(message) => exists|error: String| #[trigger]
                    error@ == message && *final(self) == old(self).answered(request, Err(error)),
            },
    {
        if let Some(message) = kind.refusal_message(submission) {
            let ghost error = message;
            assert(error@ == kind.refusal(submission)->0);
            self.finish(request, Err(message));
        }
    }
}

/// A request for a list.
#[derive(Clone, Debug, PartialEq, Eq)]
pub struct StoreRequest {
    pub kind: StoreKind,
    pub generation: u64,
    /// What the worker queue knows the request by.
    pub key: String,
}

/// The mathematical value of a [`StoreRequest`].
pub struct StoreRequestView {
    pub kind: StoreKind,
    pub generation: u64,
    pub key: Seq<char>,
}

impl DeepView for StoreRequest {
    type V = StoreRequestView;

    open spec fn deep_view(&self) -> StoreRequestView {
        StoreRequestView { kind: self.kind, generation: self.generation, key: self.key@ }
    }
}

/// The request for a list, where the mode shows it and a request is due.
pub open spec fn due_request<T>(
    kind: StoreKind,
    store: PaletteStore<T>,
    mode: PaletteMode,
) -> Seq<StoreRequestView> {
    if kind.shown_in(mode) && store.wants_request() {
        seq![
            StoreRequestView {
                kind,
                generation: store.generation,
                key: kind.key_prefix() + text::decimal(store.generation as nat),
            },
        ]
    } else {
        Seq::empty()
    }
}

/// The store after its request has begun, where the mode shows it and a request is due.
pub open spec fn with_due_request<T>(
    kind: StoreKind,
    store: PaletteStore<T>,
    mode: PaletteMode,
) -> PaletteStore<T> {
    if kind.shown_in(mode) && store.wants_request() {
        store.requested()
    } else {
        store
    }
}

/// Begins the request for one list where it is due.
fn begin_due_request<T>(
    kind: StoreKind,
    store: &mut PaletteStore<T>,
    mode: PaletteMode,
    requests: &mut Vec<StoreRequest>,
)
    ensures
        *final(store) == with_due_request(kind, *old(store), mode),
        final(requests).deep_view() == old(requests).deep_view() + due_request(
            kind,
            *old(store),
            mode,
        ),
{
    let ghost before = requests.deep_view();
    if kind.needed_in(mode) {
        if let Some(generation) = store.begin() {
            let mut key = match kind {
                StoreKind::Projects => "palette-projects:".to_owned(),
                StoreKind::Templates => "palette-templates:".to_owned(),
                StoreKind::Views => "palette-views:".to_owned(),
            };
            let number = decimal_text(generation);
            key.append(number.as_str());
            requests.push(StoreRequest { kind, generation, key });
        }
    }
    assert(requests.deep_view() =~= before + due_request(kind, *old(store), mode));
}

/// Begins the requests for the lists that the mode shows and that are not there yet: the
/// registered projects in every mode, the templates and the saved views in their own.
pub fn ensure_palette_stores<P, T, V>(
    projects: &mut PaletteStore<P>,
    templates: &mut PaletteStore<T>,
    views: &mut PaletteStore<V>,
    mode: PaletteMode,
) -> (r: Vec<StoreRequest>)
    ensures
        r.deep_view() == due_request(StoreKind::Projects, *old(projects), mode) + due_request(
            StoreKind::Templates,
            *old(templates),
            mode,
        ) + due_request(StoreKind::Views, *old(views), mode),
        *final(projects) == with_due_request(StoreKind::Projects, *old(projects), mode),
        *final(templates) == with_due_request(StoreKind::Templates, *old(templates), mode),
        *final(views) == with_due_request(StoreKind::Views, *old(views), mode),
{
    let mut requests: Vec<StoreRequest> = Vec::new();
    assert(requests.deep_view() =~= Seq::<StoreRequestView>::empty());
    begin_due_request(StoreKind::Projects, projects, mode, &mut requests);
    begin_due_request(StoreKind::Templates, templates, mode, &mut requests);
    begin_due_request(StoreKind::Views, views, mode, &mut requests);
    assert(requests.deep_view() =~= due_request(StoreKind::Projects, *old(projects), mode)
        + due_request(StoreKind::Templates, *old(templates), mode) + due_request(
        StoreKind::Views,
        *old(views),
        mode,
    ));
    requests
}

/// An answer that arrives after its request was forgotten changes nothing, also not while
/// a later request is running.
pub proof fn law_forgotten_store_requests_are_not_answered<T>(
    store: PaletteStore<T>,
    result: Result<T, String>,
)
    ensures
        store.invalidated().answered(store.generation, result) == store.invalidated(),
        store.invalidated().requested().answered(store.generation, result)
            == store.invalidated().requested(),
{
}

/// One request runs at a time, and none once there is an answer, good or bad. To forget
/// the answer makes a new request due.
pub proof fn law_one_store_request_at_a_time<T>(store: PaletteStore<T>, result: Result<T, String>)
    ensures
        !store.requested().wants_request(),
        !store.answered(store.generation, result).wants_request(),
        store.answered(store.generation, result).invalidated().wants_request(),
{
}

/// Forgets all lists: the palette was opened anew, and an earlier error must not pass for
/// an empty list.
pub fn forget_palette_stores<P, T, V>(
    projects: &mut PaletteStore<P>,
    templates: &mut PaletteStore<T>,
    views: &mut PaletteStore<V>,
)
    ensures
        *final(projects) == old(projects).invalidated(),
        *final(templates) == old(templates).invalidated(),
        *final(views) == old(views).invalidated(),
{
    projects.invalidate();
    templates.invalidate();
    views.invalidate();
}

/// The registered projects are needed in every mode, the templates and the saved views in the
/// lists that show them.
pub proof fn law_which_lists_are_needed(mode: PaletteMode)
    ensures
        StoreKind::Projects.shown_in(mode),
        StoreKind::Templates.shown_in(mode) <==> mode == PaletteMode::TemplateTabList || mode
            == PaletteMode::TemplateWorkspaceList || mode == PaletteMode::TemplateDeleteList,
        StoreKind::Views.shown_in(mode) <==> mode == PaletteMode::SavedViewList || mode
            == PaletteMode::SavedViewDeleteList,
        StoreKind::Projects.key_prefix() == "palette-projects:"@,
        StoreKind::Templates.key_prefix() == "palette-templates:"@,
        StoreKind::Views.key_prefix() == "palette-views:"@,
{
}

/// A list is asked for where the mode needs it and it is neither there nor on its way; the
/// request names the list and its generation, and is then on its way.
pub proof fn law_when_lists_are_asked_for<T>(
    kind: StoreKind,
    store: PaletteStore<T>,
    mode: PaletteMode,
)
    ensures
        !kind.shown_in(mode) || store.value is Some || store.in_flight ==> due_request(
            kind,
            store,
            mode,
        ) == Seq::<StoreRequestView>::empty() && with_due_request(kind, store, mode) == store,
        kind.shown_in(mode) && store.value is None && !store.in_flight ==> {
            &&& due_request(kind, store, mode).len() == 1
            &&& due_request(kind, store, mode)[0].kind == kind
            &&& due_request(kind, store, mode)[0].generation == store.generation
            &&& due_request(kind, store, mode)[0].key == kind.key_prefix() + text::decimal(
                store.generation as nat,
            )
            &&& with_due_request(kind, store, mode).in_flight
            &&& with_due_request(kind, store, mode).value is None
            &&& with_due_request(kind, store, mode).generation == store.generation
        },
{
}

/// The answer to the running request is kept, good or bad; another one is dropped. What is
/// forgotten is gone, and so is the request for it.
pub proof fn law_answers_of_stores<T>(
    store: PaletteStore<T>,
    request: u64,
    result: Result<T, String>,
)
    ensures
        store.answered(store.generation, result).value == Some(result),
        !store.answered(store.generation, result).in_flight,
        request != store.generation ==> store.answered(request, result) == store,
        store.invalidated().value is None,
        !store.invalidated().in_flight,
        store.invalidated().generation != store.generation,
{
}

/// What is said of a request that did not begin.
pub proof fn law_requests_of_stores_that_do_not_begin(kind: StoreKind)
    ensures
        kind.refusal(GitAsyncSubmission::Started) is None,
        kind.refusal(GitAsyncSubmission::Coalesced) is Some,
        kind.refusal(GitAsyncSubmission::Saturated) is Some,
        StoreKind::Projects.refusal(GitAsyncSubmission::Saturated) == Some(
            "worker queue is busy; reopen the palette to retry"@,
        ),
        StoreKind::Templates.refusal(GitAsyncSubmission::Saturated) == Some(
            "worker queue is busy; reopen Templates to retry"@,
        ),
        StoreKind::Views.refusal(GitAsyncSubmission::Saturated) == Some(
            "worker queue is busy; reopen Saved Views to retry"@,
        ),
        StoreKind::Projects.refusal(GitAsyncSubmission::Coalesced) == Some(
            "project worker was already registered without this palette; reopen to retry"@,
        ),
        StoreKind::Templates.refusal(GitAsyncSubmission::Coalesced) == Some(
            "template worker was already registered without this palette; reopen to retry"@,
        ),
        StoreKind::Views.refusal(GitAsyncSubmission::Coalesced) == Some(
            "saved-views worker was already registered without this palette; reopen to retry"@,
        ),
{
}

} // verus!
