//! The command line: its flags, and the run mode and deletion filter they
//! select. Parsing itself is the binary's job; it fills [`Args`].

use vstd::prelude::*;

use crate::selection::SelectionFilter;

verus! {

/// How the program runs once its flags are known.
#[derive(Debug, Clone, Copy, PartialEq, Eq, Structural)]
pub enum RunMode {
    /// Open the interactive session (stdin and stdout are terminals, no
    /// `--yes`, no non-interactive flag).
    Interactive,
    /// Print the ranked table and exit without deleting.
    ListOnly,
    /// Delete the matching worktrees without any prompt (`--yes`).
    NonInteractive,
}

/// The command-line flags.
#[derive(Debug)]
pub struct Args {
    /// Root directory to scan.
    pub path: String,
    /// Show what would be deleted without removing anything.
    pub dry_run: bool,
    /// Delete the matching worktrees without opening the interactive session.
    pub yes: bool,
    /// Also remove worktrees with uncommitted or untracked changes.
    pub force: bool,
    /// Restrict deletion to orphaned worktrees.
    pub orphaned: bool,
    /// Restrict deletion to orphaned and stale worktrees.
    pub stale: bool,
    /// Every worktree except the main working tree (the default filter).
    pub all: bool,
}

/// The filter named by the flags: `--orphaned` wins over `--stale`; with
/// neither (or with `--all`) every selectable worktree matches.
pub open spec fn filter_of(orphaned: bool, stale: bool) -> SelectionFilter {
    if orphaned {
        SelectionFilter::OrphanedOnly
    } else if stale {
        SelectionFilter::OrphanedAndStale
    } else {
        SelectionFilter::AllSelectable
    }
}

impl Args {
    /// Whether a flag that only refines a non-interactive run was given:
    /// such a run never falls through to the interactive session, which
    /// would silently ignore it.
    pub fn has_noninteractive_flags(&self) -> (r: bool)
        ensures
            r == (self.force || self.orphaned || self.stale || self.all),
    {
        self.force || self.orphaned || self.stale || self.all
    }

    /// The run mode, given whether stdin and stdout are terminals: `--yes`
    /// deletes without prompting; otherwise the interactive session opens
    /// only on a terminal with no non-interactive flag, and the table is
    /// printed in every other case.
    pub fn run_mode(&self, stdin_is_terminal: bool, stdout_is_terminal: bool) -> (r: RunMode)
        ensures
            r == (if self.yes {
                RunMode::NonInteractive
            } else if stdin_is_terminal && stdout_is_terminal && !(self.force || self.orphaned
                || self.stale || self.all) {
                RunMode::Interactive
            } else {
                RunMode::ListOnly
            }),
    {
        if self.yes {
            RunMode::NonInteractive
        } else if stdin_is_terminal && stdout_is_terminal && !self.has_noninteractive_flags() {
            RunMode::Interactive
        } else {
            RunMode::ListOnly
        }
    }

    /// The deletion filter the flags select (see [`filter_of`]).
    pub fn filter(&self) -> (r: SelectionFilter)
        ensures
            r == filter_of(self.orphaned, self.stale),
    {
        SelectionFilter::from_flags(self.orphaned, self.stale)
    }
}

} // verus!
