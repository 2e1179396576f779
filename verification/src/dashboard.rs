//! The tmux sessions that the dashboard knows.

use vstd::prelude::*;
use crate::tmux::{TmuxTarget, TmuxTargetView};

verus! {

/// What a session was seen doing.
#[derive(Clone, Copy, Debug, PartialEq, Eq, Structural)]
pub enum SessionStatus {
    Running,
    Idle,
    Detached,
}

/// A session that was detached from a pane of this program.
#[derive(Clone, Debug, PartialEq, Eq)]
pub struct DetachedSession {
    pub session_name: String,
    pub host: String,
    pub workspace: String,
    pub target: TmuxTarget,
    pub last_command: Option<String>,
    pub finished: bool,
}

/// A session that probing found.
#[derive(Clone, Debug, PartialEq, Eq)]
pub struct DashboardSession {
    pub name: String,
    pub host: String,
    pub target: TmuxTarget,
    pub status: SessionStatus,
    pub command: Option<String>,
    pub is_detached: bool,
}

/// The mathematical value of a [`DetachedSession`].
pub struct DetachedSessionView {
    pub session_name: Seq<char>,
    pub host: Seq<char>,
    pub workspace: Seq<char>,
    pub target: TmuxTargetView,
    pub last_command: Option<Seq<char>>,
    pub finished: bool,
}

/// The mathematical value of a [`DashboardSession`].
pub struct DashboardSessionView {
    pub name: Seq<char>,
    pub host: Seq<char>,
    pub target: TmuxTargetView,
    pub status: SessionStatus,
    pub command: Option<Seq<char>>,
    pub is_detached: bool,
}

impl DeepView for DetachedSession {
    type V = DetachedSessionView;

    open spec fn deep_view(&self) -> DetachedSessionView {
        DetachedSessionView {
            session_name: self.session_name@,
            host: self.host@,
            workspace: self.workspace@,
            target: self.target.deep_view(),
            last_command: self.last_command.deep_view(),
            finished: self.finished,
        }
    }
}

impl DeepView for DashboardSession {
    type V = DashboardSessionView;

    open spec fn deep_view(&self) -> DashboardSessionView {
        DashboardSessionView {
            name: self.name@,
            host: self.host@,
            target: self.target.deep_view(),
            status: self.status,
            command: self.command.deep_view(),
            is_detached: self.is_detached,
        }
    }
}

} // verus!
