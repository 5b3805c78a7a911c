//! Which worktrees may be deleted, and which match a non-interactive filter.

use vstd::prelude::*;

use crate::worktree::{Worktree, WorktreeStatus};

verus! {

/// Which worktrees are eligible for non-interactive deletion.
#[derive(Debug, Clone, Copy, PartialEq, Eq, Structural)]
pub enum SelectionFilter {
    /// Every selectable row (same as the TUI's "toggle all selectable").
    AllSelectable,
    /// Only orphaned worktrees.
    OrphanedOnly,
    /// Orphaned and stale worktrees.
    OrphanedAndStale,
}

impl SelectionFilter {
    /// The filter named by the `--orphaned` / `--stale` flags; `--orphaned`
    /// wins, and with neither every selectable worktree matches.
    pub fn from_flags(orphaned: bool, stale: bool) -> (r: Self)
        ensures
            r == (if orphaned {
                SelectionFilter::OrphanedOnly
            } else if stale {
                SelectionFilter::OrphanedAndStale
            } else {
                SelectionFilter::AllSelectable
            }),
    {
        if orphaned {
            Self::OrphanedOnly
        } else if stale {
            Self::OrphanedAndStale
        } else {
            Self::AllSelectable
        }
    }
}

/// Whether a worktree may ever be selected for deletion.
pub open spec fn selectable(w: Worktree) -> bool {
    w.status != WorktreeStatus::MainRepo
}

/// Whether `filter` admits a worktree.
pub open spec fn admits(filter: SelectionFilter, w: Worktree) -> bool {
    selectable(w) && match filter {
        SelectionFilter::AllSelectable => true,
        SelectionFilter::OrphanedOnly => w.status == WorktreeStatus::Orphaned,
        SelectionFilter::OrphanedAndStale => w.status == WorktreeStatus::Orphaned || w.status
            == WorktreeStatus::Stale,
    }
}

/// Whether `wt` may be selected for deletion (the main working tree never can).
pub fn is_selectable(wt: &Worktree) -> (r: bool)
    ensures
        r == selectable(*wt),
{
    wt.status != WorktreeStatus::MainRepo
}

/// Whether `wt` matches the non-interactive filter.
pub fn matches_filter(wt: &Worktree, filter: SelectionFilter) -> (r: bool)
    ensures
        r == admits(filter, *wt),
{
    if !is_selectable(wt) {
        return false;
    }
    match filter {
        SelectionFilter::AllSelectable => true,
        SelectionFilter::OrphanedOnly => wt.status == WorktreeStatus::Orphaned,
        SelectionFilter::OrphanedAndStale => matches!(wt.status, WorktreeStatus::Orphaned | WorktreeStatus::Stale),
    }
}

/// The worktrees that would be deleted for `filter`, in scan order.
pub fn select_for_deletion<'a>(worktrees: &'a [Worktree], filter: SelectionFilter) -> (r: Vec<
    &'a Worktree,
>)
    ensures
        r@.len() == worktrees@.filter(|w: Worktree| admits(filter, w)).len(),
        forall|i: int|
            0 <= i < r@.len() ==> *#[trigger] r@[i] == worktrees@.filter(
                |w: Worktree| admits(filter, w),
            )[i],
{
    let mut out: Vec<&'a Worktree> = Vec::new();
    let mut i: usize = 0;
    while i < worktrees.len()
        invariant
            i <= worktrees@.len(),
            out@.len() == worktrees@.subrange(0, i as int).filter(
                |w: Worktree| admits(filter, w),
            ).len(),
            forall|k: int|
                0 <= k < out@.len() ==> *#[trigger] out@[k] == worktrees@.subrange(
                    0,
                    i as int,
                ).filter(|w: Worktree| admits(filter, w))[k],
        decreases worktrees@.len() - i,
    {
        proof {
            reveal_with_fuel(Seq::filter, 1);
            assert(worktrees@.subrange(0, i + 1).drop_last() =~= worktrees@.subrange(0, i as int));
        }
        if matches_filter(&worktrees[i], filter) {
            out.push(&worktrees[i]);
        }
        i = i + 1;
    }
    assert(worktrees@.subrange(0, worktrees@.len() as int) =~= worktrees@);
    out
}

/// The main working tree never matches any filter.
pub proof fn lemma_main_repo_never_matches(w: Worktree, filter: SelectionFilter)
    requires
        w.status == WorktreeStatus::MainRepo,
    ensures
        !admits(filter, w),
{
}

/// The filters are nested: orphaned-only within orphaned-and-stale within
/// all selectable.
pub proof fn lemma_filters_nest(w: Worktree)
    ensures
        admits(SelectionFilter::OrphanedOnly, w) ==> admits(SelectionFilter::OrphanedAndStale, w),
        admits(SelectionFilter::OrphanedAndStale, w) ==> admits(SelectionFilter::AllSelectable, w),
        admits(SelectionFilter::AllSelectable, w) == selectable(w),
{
}

/// Each filter admits by status alone: all but the main working tree, only
/// orphaned worktrees, or orphaned and stale ones. No other field (merged,
/// local changes, times, size) decides.
pub proof fn lemma_filters_go_by_status(w: Worktree, filter: SelectionFilter)
    ensures
        admits(filter, w) == match filter {
            SelectionFilter::AllSelectable => w.status != WorktreeStatus::MainRepo,
            SelectionFilter::OrphanedOnly => w.status == WorktreeStatus::Orphaned,
            SelectionFilter::OrphanedAndStale => w.status == WorktreeStatus::Orphaned || w.status
                == WorktreeStatus::Stale,
        },
{
}

/// Two worktrees of the same status are admitted alike by every filter.
pub proof fn lemma_same_status_same_answer(a: Worktree, b: Worktree, filter: SelectionFilter)
    requires
        a.status == b.status,
    ensures
        admits(filter, a) == admits(filter, b),
{
}

} // verus!
