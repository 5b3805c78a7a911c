//! Finding, ranking and cleaning up stray git worktrees: the decision logic
//! behind the `wtc` tool, with its contracts proved.

pub mod text;
pub mod size;
pub mod worktree;
pub mod score;
pub mod selection;
pub mod paths;
pub mod delete;
pub mod tui;
pub mod scan;
pub mod noninteractive;
pub mod cli;
pub mod screen;
pub mod sorting;
