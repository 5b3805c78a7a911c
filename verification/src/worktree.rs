//! The worktree record every other module works on, its status, and the
//! coarse "how long ago" label shown for it.

use vstd::prelude::*;

use crate::text::decimal;

verus! {

/// Seconds in a day.
pub const SECS_PER_DAY: i64 = 86_400;

/// Why a worktree might (or might not) be a deletion candidate.
#[derive(Debug, Clone, Copy, PartialEq, Eq, Structural)]
pub enum WorktreeStatus {
    /// A linked worktree whose backing repository or admin directory is gone.
    Orphaned,
    /// A valid worktree with no activity for more than the staleness threshold.
    Stale,
    /// A healthy, recently used worktree.
    Active,
    /// The primary working tree of a repository (never deleted).
    MainRepo,
}

/// The display label of a status.
pub open spec fn status_label(s: WorktreeStatus) -> Seq<char> {
    match s {
        WorktreeStatus::Orphaned => "orphaned"@,
        WorktreeStatus::Stale => "stale"@,
        WorktreeStatus::Active => "active"@,
        WorktreeStatus::MainRepo => "main"@,
    }
}

impl WorktreeStatus {
    /// Short lowercase label for display.
    pub fn label(self) -> (r: &'static str)
        ensures
            r@ == status_label(self),
    {
        match self {
            WorktreeStatus::Orphaned => "orphaned",
            WorktreeStatus::Stale => "stale",
            WorktreeStatus::Active => "active",
            WorktreeStatus::MainRepo => "main",
        }
    }
}

/// A git worktree discovered on disk. Paths are absolute; times are whole
/// seconds since the Unix epoch.
#[derive(Debug)]
pub struct Worktree {
    /// Absolute path to the worktree directory.
    pub path: String,
    /// Path to the `.git` directory of the repository this worktree belongs to.
    pub repo_path: Option<String>,
    /// Checked-out branch or ref name, if any.
    pub branch: Option<String>,
    /// Short HEAD commit id.
    pub head: Option<String>,
    /// Time of the most recent commit reachable from HEAD.
    pub last_commit: Option<i64>,
    /// Filesystem modification time of the worktree directory.
    pub last_modified: Option<i64>,
    /// Health / deletion eligibility.
    pub status: WorktreeStatus,
    /// Whether HEAD is already merged into the owning repository's default
    /// branch (`false` when unknown).
    pub merged: bool,
    /// Whether the worktree has uncommitted or untracked changes.
    pub dirty: bool,
    /// On-disk size in bytes, `None` until it has been computed.
    pub size_bytes: Option<u64>,
}

/// An exact copy of an optional string.
pub fn copy_opt_string(o: &Option<String>) -> (r: Option<String>)
    ensures
        r == *o,
{
    match o {
        Some(s) => Some(s.clone()),
        None => None,
    }
}

impl Clone for Worktree {
    fn clone(&self) -> (r: Self)
        ensures
            r == *self,
    {
        Worktree {
            path: self.path.clone(),
            repo_path: copy_opt_string(&self.repo_path),
            branch: copy_opt_string(&self.branch),
            head: copy_opt_string(&self.head),
            last_commit: self.last_commit,
            last_modified: self.last_modified,
            status: self.status,
            merged: self.merged,
            dirty: self.dirty,
            size_bytes: self.size_bytes,
        }
    }
}

/// The time used for a worktree's age label: its last commit, else its
/// filesystem modification time.
pub open spec fn label_time(w: Worktree) -> Option<i64> {
    match w.last_commit {
        Some(t) => Some(t),
        None => w.last_modified,
    }
}

/// Whole days from `then` to `now`, never negative.
pub open spec fn days_since(now: int, then: int) -> nat {
    if now - then <= 0 {
        0
    } else {
        ((now - then) / 86_400) as nat
    }
}

/// The label for something last active `days` days ago.
pub open spec fn age_text(days: nat) -> Seq<char> {
    if days == 0 {
        "today"@
    } else if days == 1 {
        "1 day ago"@
    } else if days <= 30 {
        decimal(days) + " days ago"@
    } else if days <= 364 {
        decimal(days / 30) + " mo ago"@
    } else {
        decimal(days / 365) + " yr ago"@
    }
}

/// The age label of `w` at time `now`.
pub open spec fn age_label_text(w: Worktree, now: int) -> Seq<char> {
    match label_time(w) {
        Some(t) => age_text(days_since(now, t as int)),
        None => "unknown"@,
    }
}

/// Whole days from `then` to `now`, never negative.
pub fn days_between(now: i64, then: i64) -> (r: u64)
    ensures
        r == days_since(now as int, then as int),
{
    let diff: i128 = now as i128 - then as i128;
    if diff <= 0 {
        0
    } else {
        (diff / 86_400) as u64
    }
}

impl Worktree {
    /// A coarse "N days / N mo / N yr ago" label for the worktree's last
    /// activity as of `now`.
    pub fn age_label(&self, now: i64) -> (r: String)
        ensures
            r@ == age_label_text(*self, now as int),
    {
        let when = match self.last_commit {
            Some(t) => Some(t),
            None => self.last_modified,
        };
        match when {
            None => String::from_str("unknown"),
            Some(t) => {
                let days = days_between(now, t);
                if days == 0 {
                    String::from_str("today")
                } else if days == 1 {
                    String::from_str("1 day ago")
                } else if days <= 30 {
                    let mut s = crate::text::decimal_string(days as u128);
                    s.append(" days ago");
                    s
                } else if days <= 364 {
                    let mut s = crate::text::decimal_string((days / 30) as u128);
                    s.append(" mo ago");
                    s
                } else {
                    let mut s = crate::text::decimal_string((days / 365) as u128);
                    s.append(" yr ago");
                    s
                }
            },
        }
    }

}

} // verus!
