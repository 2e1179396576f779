//! The command palette: what it lists, and what choosing an entry does.

pub mod attach;
pub mod changes;
pub mod commands;
pub mod entry;
pub mod files;
pub mod help;
pub mod listing;
pub mod modes;
pub mod pickers;
pub mod placing;
pub mod projects;
pub mod records;
pub mod sending;
pub mod session;
pub mod stores;
pub mod templates;
pub mod worktrees;

use vstd::prelude::*;

verus! {

/// What the palette lists.
#[derive(Clone, Copy, Debug, PartialEq, Eq, Structural)]
pub enum PaletteMode {
    /// The commands.
    Default,
    WorktreeList,
    WorktreeRemove,
    TemplateTabList,
    TemplateWorkspaceList,
    TemplateDeleteList,
    SavedViewList,
    SavedViewDeleteList,
    AttachSessionList,
    KeybindingHelp,
    SendToPane,
    ClipboardHistory,
    RecentFiles,
}

} // verus!
