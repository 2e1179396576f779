//! tmux sessions as panes refer to them.

use vstd::prelude::*;
use vstd::string::*;
use crate::text::same_text;

verus! {

/// The tmux server that a session runs on.
#[derive(Clone, Debug, PartialEq, Eq, Hash)]
pub enum TmuxTarget {
    Local,
    Remote { ssh_target: String },
}

/// The mathematical value of a [`TmuxTarget`].
pub enum TmuxTargetView {
    Local,
    Remote { ssh_target: Seq<char> },
}

impl DeepView for TmuxTarget {
    type V = TmuxTargetView;

    open spec fn deep_view(&self) -> TmuxTargetView {
        match self {
            TmuxTarget::Local => TmuxTargetView::Local,
            TmuxTarget::Remote { ssh_target } => TmuxTargetView::Remote { ssh_target: ssh_target@ },
        }
    }
}

impl TmuxTargetView {
    /// The SSH destination of a remote server.
    pub open spec fn ssh_target(self) -> Option<Seq<char>> {
        match self {
            TmuxTargetView::Local => None,
            TmuxTargetView::Remote { ssh_target } => Some(ssh_target),
        }
    }
}

impl TmuxTarget {
    /// The SSH destination of a remote server.
    pub fn ssh_target_string(&self) -> (r: Option<String>)
        ensures
            r.deep_view() == self.deep_view().ssh_target(),
    {
        match self {
            TmuxTarget::Local => None,
            TmuxTarget::Remote { ssh_target } => Some(ssh_target.clone()),
        }
    }

    /// Whether both name the same server.
    pub fn same_target(&self, other: &TmuxTarget) -> (r: bool)
        ensures
            r == (self.deep_view() == other.deep_view()),
    {
        match (self, other) {
            (TmuxTarget::Local, TmuxTarget::Local) => true,
            (TmuxTarget::Remote { ssh_target: a }, TmuxTarget::Remote { ssh_target: b }) => {
                same_text(a.as_str(), b.as_str())
            },
            _ => false,
        }
    }

    /// Another value that names the same server.
    pub fn copy_target(&self) -> (r: TmuxTarget)
        ensures
            r.deep_view() == self.deep_view(),
    {
        match self {
            TmuxTarget::Local => TmuxTarget::Local,
            TmuxTarget::Remote { ssh_target } => TmuxTarget::Remote { ssh_target: ssh_target.clone() },
        }
    }
}

/// The generation of a tmux session: a session of the same name that was started anew
/// has another one.
#[derive(Clone, Debug, PartialEq, Eq)]
pub struct SavedTmuxIdentity {
    pub session_id: String,
    pub session_created: u64,
    pub continuity_id: String,
}

/// The mathematical value of a [`SavedTmuxIdentity`].
pub struct TmuxIdentityView {
    pub session_id: Seq<char>,
    pub session_created: u64,
    pub continuity_id: Seq<char>,
}

impl DeepView for SavedTmuxIdentity {
    type V = TmuxIdentityView;

    open spec fn deep_view(&self) -> TmuxIdentityView {
        TmuxIdentityView {
            session_id: self.session_id@,
            session_created: self.session_created,
            continuity_id: self.continuity_id@,
        }
    }
}

impl SavedTmuxIdentity {
    /// Whether both are the same generation.
    pub fn same_identity(&self, other: &SavedTmuxIdentity) -> (r: bool)
        ensures
            r == (self.deep_view() == other.deep_view()),
    {
        same_text(self.session_id.as_str(), other.session_id.as_str()) && self.session_created
            == other.session_created && same_text(
            self.continuity_id.as_str(),
            other.continuity_id.as_str(),
        )
    }

    /// Another value of the same generation.
    pub fn copy_identity(&self) -> (r: SavedTmuxIdentity)
        ensures
            r.deep_view() == self.deep_view(),
    {
        SavedTmuxIdentity {
            session_id: self.session_id.clone(),
            session_created: self.session_created,
            continuity_id: self.continuity_id.clone(),
        }
    }
}

/// What tmux reports of a pane.
#[derive(Clone, Debug, PartialEq, Eq)]
pub struct TmuxPaneInfo {
    pub current_command: String,
    pub cwd: String,
    pub pid: i32,
    pub width: u32,
    pub height: u32,
    pub session_id: String,
    pub session_created: u64,
    /// Set by this program on sessions that it may claim again after a restart.
    pub continuity_id: Option<String>,
}

/// A session of this machine has no SSH target; one of a host has the host's.
pub proof fn law_targets_of_sessions(ssh_target: Seq<char>)
    ensures
        TmuxTargetView::Local.ssh_target() is None,
        (TmuxTargetView::Remote { ssh_target }).ssh_target() == Some(ssh_target),
{
}

} // verus!
