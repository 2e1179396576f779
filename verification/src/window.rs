//! The window: its keys, its layout and what its actions do.

pub mod chords;
pub mod config_watch;
pub mod layout;
pub mod legend;
pub mod search;
pub mod startup;
pub mod help_key;
pub mod lifecycle;
pub mod registration;
pub mod actions;
pub mod restore;
pub mod seeding;
