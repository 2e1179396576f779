//! The decisions behind the taarof terminal workspace: command lines, pane trees,
//! task discovery, palette entries, probes and caches, stated and proved as
//! functions on plain values. The window, the processes and the files live in the
//! program that calls this library.

pub mod text;
pub mod tmux;
pub mod workspace;
pub mod dashboard;
pub mod git;
pub mod identity;
pub mod json;
pub mod keybindings;
pub mod loop_runner;
pub mod navigation;
pub mod ordering;
pub mod palette;
pub mod pane;
pub mod paths;
pub mod peek;
pub mod performance;
pub mod private_atomic_file;
pub mod probe;
pub mod mise;
pub mod task_launch;
pub mod window;
