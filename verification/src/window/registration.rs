//! Registering the project of the focused pane: which work is done outside, and what
//! follows from it.

use vstd::prelude::*;
use vstd::string::*;
use crate::palette::changes::{Notice, NoticeView};
use crate::text::copy_texts;
use crate::window::lifecycle::{finish_project_registration, registration_notice, ProjectRegistration};

verus! {

/// Where the focused pane is.
#[derive(Clone, Debug, PartialEq, Eq)]
pub enum FocusedProjectSource {
    /// In a directory of this machine. `preferred_open` is how the project is to be opened,
    /// as the registry holds it.
    Local { cwd: String, preferred_open: String },
    /// In a directory of a host.
    Remote {
        cwd: String,
        host_name: String,
        ssh_target: String,
        /// The arguments of the SSH client that runs in the pane.
        ssh_argv: Option<Vec<String>>,
        preferred_open: String,
    },
}

/// The mathematical value of a [`FocusedProjectSource`].
pub enum SourceView {
    Local { cwd: Seq<char>, preferred_open: Seq<char> },
    Remote {
        cwd: Seq<char>,
        host_name: Seq<char>,
        ssh_target: Seq<char>,
        ssh_argv: Option<Seq<Seq<char>>>,
        preferred_open: Seq<char>,
    },
}

impl DeepView for FocusedProjectSource {
    type V = SourceView;

    open spec fn deep_view(&self) -> SourceView {
        match self {
            FocusedProjectSource::Local { cwd, preferred_open } => SourceView::Local {
                cwd: cwd@,
                preferred_open: preferred_open@,
            },
            FocusedProjectSource::Remote {
                cwd,
                host_name,
                ssh_target,
                ssh_argv,
                preferred_open,
            } => SourceView::Remote {
                cwd: cwd@,
                host_name: host_name@,
                ssh_target: ssh_target@,
                ssh_argv: ssh_argv.deep_view(),
                preferred_open: preferred_open@,
            },
        }
    }
}

/// What a host says of the checkout in a directory.
#[derive(Clone, Debug, PartialEq, Eq)]
pub enum RemoteGitIdentityOutcome {
    /// A checkout of a repository on GitHub, as the host describes it.
    GitHub(String),
    /// Anything else: no checkout, another forge, or a host that does not answer.
    Unavailable,
}

/// The next step of a registration.
#[derive(Clone, Debug, PartialEq, Eq)]
pub enum RegistrationStep {
    /// Makes a project of the checkout at a path and saves it.
    RegisterLocal { cwd: String, preferred_open: String },
    /// Asks the host about the checkout at a path.
    AskHost { ssh_argv: Option<Vec<String>>, host_name: String, cwd: String },
    /// Makes a project of what the host said and saves it.
    RegisterRemote {
        host_name: String,
        ssh_target: String,
        ssh_argv: Option<Vec<String>>,
        identity: String,
        preferred_open: String,
    },
    /// Tells the user how the registration ended.
    Tell { notice: Notice },
}

/// The mathematical value of a [`RegistrationStep`].
pub enum RegistrationStepView {
    RegisterLocal { cwd: Seq<char>, preferred_open: Seq<char> },
    AskHost { ssh_argv: Option<Seq<Seq<char>>>, host_name: Seq<char>, cwd: Seq<char> },
    RegisterRemote {
        host_name: Seq<char>,
        ssh_target: Seq<char>,
        ssh_argv: Option<Seq<Seq<char>>>,
        identity: Seq<char>,
        preferred_open: Seq<char>,
    },
    Tell { notice: NoticeView },
}

impl DeepView for RegistrationStep {
    type V = RegistrationStepView;

    open spec fn deep_view(&self) -> RegistrationStepView {
        match self {
            RegistrationStep::RegisterLocal {
                cwd,
                preferred_open,
            } => RegistrationStepView::RegisterLocal {
                cwd: cwd@,
                preferred_open: preferred_open@,
            },
            RegistrationStep::AskHost { ssh_argv, host_name, cwd } => RegistrationStepView::AskHost {
                ssh_argv: ssh_argv.deep_view(),
                host_name: host_name@,
                cwd: cwd@,
            },
            RegistrationStep::RegisterRemote {
                host_name,
                ssh_target,
                ssh_argv,
                identity,
                preferred_open,
            } => RegistrationStepView::RegisterRemote {
                host_name: host_name@,
                ssh_target: ssh_target@,
                ssh_argv: ssh_argv.deep_view(),
                identity: identity@,
                preferred_open: preferred_open@,
            },
            RegistrationStep::Tell { notice } => RegistrationStepView::Tell {
                notice: notice.deep_view(),
            },
        }
    }
}

/// What a step that was carried out brought; nothing where its worker was lost. A
/// registration brings the project's name.
#[derive(Clone, Debug, PartialEq, Eq)]
pub enum RegistrationEvent {
    LocalRegistered(Option<Result<String, String>>),
    HostAnswered(Option<RemoteGitIdentityOutcome>),
    RemoteRegistered(Option<Result<String, String>>),
}

/// The end of a registration that failed.
pub open spec fn refused(error: Seq<char>) -> RegistrationStepView {
    RegistrationStepView::Tell { notice: registration_notice(Err(error)) }
}

/// The end of a registration with this result. `lost` is what is said where its worker was
/// lost.
pub open spec fn ended(
    result: Option<Result<String, String>>,
    lost: Seq<char>,
) -> RegistrationStepView {
    match result {
        Some(Ok(name)) => RegistrationStepView::Tell { notice: registration_notice(Ok(name@)) },
        Some(Err(error)) => refused(error@),
        None => refused(lost),
    }
}

/// The first step of a registration.
pub open spec fn first_step(source: SourceView) -> RegistrationStepView {
    match source {
        SourceView::Local { cwd, preferred_open } => RegistrationStepView::RegisterLocal {
            cwd,
            preferred_open,
        },
        SourceView::Remote { cwd, host_name, ssh_argv, .. } => RegistrationStepView::AskHost {
            ssh_argv,
            host_name,
            cwd,
        },
    }
}

/// The step that follows what a step brought. A host is believed only where it names a
/// repository.
pub open spec fn next_step(source: SourceView, event: RegistrationEvent) -> RegistrationStepView {
    match event {
        RegistrationEvent::LocalRegistered(result) => ended(result, "local Git discovery failed"@),
        RegistrationEvent::RemoteRegistered(result) => ended(
            result,
            "remote project registration failed"@,
        ),
        RegistrationEvent::HostAnswered(answer) => match (source, answer) {
            (
                SourceView::Remote { host_name, ssh_target, ssh_argv, preferred_open, .. },
                Some(RemoteGitIdentityOutcome::GitHub(identity)),
            ) => RegistrationStepView::RegisterRemote {
                host_name,
                ssh_target,
                ssh_argv,
                identity: identity@,
                preferred_open,
            },
            _ => refused("remote Git identity is unavailable"@),
        },
    }
}

/// The end of a registration with this result.
fn tell(result: Result<String, String>) -> (r: RegistrationStep)
    ensures
        r.deep_view() == ended(Some(result), ""@),
{
    RegistrationStep::Tell { notice: finish_project_registration(&result) }
}

/// The end of a registration with this result.
fn end_with(result: &Option<Result<String, String>>, lost: &str) -> (r: RegistrationStep)
    ensures
        r.deep_view() == ended(*result, lost@),
{
    match result {
        Some(Ok(name)) => tell(Ok(name.clone())),
        Some(Err(error)) => tell(Err(error.clone())),
        None => tell(Err(lost.to_owned())),
    }
}

/// Another list of the same texts, where there is one.
fn copy_argv(argv: &Option<Vec<String>>) -> (r: Option<Vec<String>>)
    ensures
        r.deep_view() == argv.deep_view(),
{
    match argv {
        Some(argv) => Some(copy_texts(argv)),
        None => None,
    }
}

/// Begins to register the project of the focused pane, unless a registration is under way.
/// `source` is where the pane is, or why that is not known.
pub fn register_focused_project(
    registration: &mut ProjectRegistration,
    source: &Result<FocusedProjectSource, String>,
) -> (r: RegistrationStep)
    ensures
        r.deep_view() == if old(registration).in_flight {
            RegistrationStepView::Tell {
                notice: NoticeView {
                    message: "Project registration is already in progress"@,
                    is_error: false,
                },
            }
        } else {
            match *source {
                Ok(source) => first_step(source.deep_view()),
                Err(error) => refused(error@),
            }
        },
        final(registration).in_flight == (old(registration).in_flight || *source is Ok),
{
    if !registration.begin() {
        return RegistrationStep::Tell {
            notice: Notice {
                message: "Project registration is already in progress".to_owned(),
                is_error: false,
            },
        };
    }
    match source {
        Err(error) => {
            registration.end();
            tell(Err(error.clone()))
        },
        Ok(source) => match source {
            FocusedProjectSource::Local {
                cwd,
                preferred_open,
            } => RegistrationStep::RegisterLocal {
                cwd: cwd.clone(),
                preferred_open: preferred_open.clone(),
            },
            FocusedProjectSource::Remote {
                cwd,
                host_name,
                ssh_argv,
                ..
            } => RegistrationStep::AskHost {
                ssh_argv: copy_argv(ssh_argv),
                host_name: host_name.clone(),
                cwd: cwd.clone(),
            },
        },
    }
}

/// The step of a registration that follows what the last one brought. The registration is
/// over once the user is told how it ended.
pub fn continue_registration(
    registration: &mut ProjectRegistration,
    source: &FocusedProjectSource,
    event: &RegistrationEvent,
) -> (r: RegistrationStep)
    ensures
        r.deep_view() == next_step(source.deep_view(), *event),
        final(registration).in_flight == (old(registration).in_flight && !(r is Tell)),
{
    let step = match event {
        RegistrationEvent::LocalRegistered(result) => end_with(
            result,
            "local Git discovery failed",
        ),
        RegistrationEvent::RemoteRegistered(result) => end_with(
            result,
            "remote project registration failed",
        ),
        RegistrationEvent::HostAnswered(answer) => match (source, answer) {
            (
                FocusedProjectSource::Remote {
                    host_name,
                    ssh_target,
                    ssh_argv,
                    preferred_open,
                    ..
                },
                Some(RemoteGitIdentityOutcome::GitHub(identity)),
            ) => {
                return RegistrationStep::RegisterRemote {
                    host_name: host_name.clone(),
                    ssh_target: ssh_target.clone(),
                    ssh_argv: copy_argv(ssh_argv),
                    identity: identity.clone(),
                    preferred_open: preferred_open.clone(),
                };
            },
            _ => tell(Err("remote Git identity is unavailable".to_owned())),
        },
    };
    registration.end();
    step
}

/// A project on a host is registered only once the host was asked and has named its
/// repository.
pub proof fn law_only_named_repositories_are_registered(
    source: SourceView,
    event: RegistrationEvent,
)
    ensures
        !(first_step(source) is RegisterRemote),
        source is Remote ==> first_step(source) is AskHost,
        next_step(source, event) is RegisterRemote ==> source is Remote && (event matches
            RegistrationEvent::HostAnswered(Some(RemoteGitIdentityOutcome::GitHub(_)))),
        !(next_step(source, event) is RegisterLocal),
{
}

/// A registration goes through its steps: a checkout of this machine is registered at once, a
/// host is asked first, and what it names is then registered with what the pane said of it.
pub proof fn law_steps_of_registrations(
    cwd: Seq<char>,
    host_name: Seq<char>,
    ssh_target: Seq<char>,
    ssh_argv: Option<Seq<Seq<char>>>,
    preferred_open: Seq<char>,
    identity: String,
    name: String,
)
    ensures
        ({
            let here = SourceView::Local { cwd, preferred_open };
            let there = SourceView::Remote { cwd, host_name, ssh_target, ssh_argv, preferred_open };
            let named = RegistrationEvent::HostAnswered(
                Some(RemoteGitIdentityOutcome::GitHub(identity)),
            );
            &&& first_step(here) == (RegistrationStepView::RegisterLocal { cwd, preferred_open })
            &&& first_step(there) == (RegistrationStepView::AskHost { ssh_argv, host_name, cwd })
            &&& next_step(there, named) == (RegistrationStepView::RegisterRemote {
                host_name,
                ssh_target,
                ssh_argv,
                identity: identity@,
                preferred_open,
            })
            &&& next_step(
                there,
                RegistrationEvent::HostAnswered(Some(RemoteGitIdentityOutcome::Unavailable)),
            ) == (RegistrationStepView::Tell {
                notice: NoticeView {
                    message: "Could not register project: "@
                        + "remote Git identity is unavailable"@,
                    is_error: true,
                },
            })
            &&& next_step(there, RegistrationEvent::HostAnswered(None)) == next_step(
                there,
                RegistrationEvent::HostAnswered(Some(RemoteGitIdentityOutcome::Unavailable)),
            )
            &&& next_step(here, RegistrationEvent::LocalRegistered(Some(Ok(name)))) == (
            RegistrationStepView::Tell {
                notice: NoticeView { message: "Registered project "@ + name@, is_error: false },
            })
            &&& next_step(there, RegistrationEvent::RemoteRegistered(Some(Ok(name)))) == (
            RegistrationStepView::Tell {
                notice: NoticeView { message: "Registered project "@ + name@, is_error: false },
            })
            &&& next_step(here, RegistrationEvent::LocalRegistered(Some(Err(name)))) == (
            RegistrationStepView::Tell {
                notice: NoticeView {
                    message: "Could not register project: "@ + name@,
                    is_error: true,
                },
            })
            &&& next_step(here, RegistrationEvent::LocalRegistered(None)) == (
            RegistrationStepView::Tell {
                notice: NoticeView {
                    message: "Could not register project: "@ + "local Git discovery failed"@,
                    is_error: true,
                },
            })
            &&& next_step(there, RegistrationEvent::RemoteRegistered(None)) == (
            RegistrationStepView::Tell {
                notice: NoticeView {
                    message: "Could not register project: "@
                        + "remote project registration failed"@,
                    is_error: true,
                },
            })
        }),
{
}

} // verus!
