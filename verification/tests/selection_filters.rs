use worktree_cleaner::selection::{
    SelectionFilter, is_selectable, matches_filter, select_for_deletion,
};
use worktree_cleaner::worktree::{Worktree, WorktreeStatus};

fn fake_worktree(path: &str, status: WorktreeStatus) -> Worktree {
    Worktree {
        path: path.to_string(),
        repo_path: None,
        branch: None,
        head: None,
        last_commit: None,
        last_modified: None,
        status,
        merged: false,
        dirty: false,
        size_bytes: None,
    }
}

#[test]
fn main_repo_is_never_selectable() {
    let main = fake_worktree("/main", WorktreeStatus::MainRepo);
    assert!(!is_selectable(&main));
    assert!(!matches_filter(&main, SelectionFilter::AllSelectable));
}

#[test]
fn all_selectable_includes_active_and_stale() {
    let worktrees = vec![
        fake_worktree("/orphaned", WorktreeStatus::Orphaned),
        fake_worktree("/stale", WorktreeStatus::Stale),
        fake_worktree("/active", WorktreeStatus::Active),
    ];
    let selected = select_for_deletion(&worktrees, SelectionFilter::AllSelectable);
    assert_eq!(selected.len(), 3);
}

#[test]
fn orphaned_filter_is_exclusive() {
    let worktrees = vec![
        fake_worktree("/orphaned", WorktreeStatus::Orphaned),
        fake_worktree("/stale", WorktreeStatus::Stale),
    ];
    let selected = select_for_deletion(&worktrees, SelectionFilter::OrphanedOnly);
    assert_eq!(selected.len(), 1);
    assert_eq!(selected[0].path.as_str(), "/orphaned");
}

#[test]
fn stale_filter_includes_orphaned_and_stale() {
    let worktrees = vec![
        fake_worktree("/orphaned", WorktreeStatus::Orphaned),
        fake_worktree("/stale", WorktreeStatus::Stale),
        fake_worktree("/active", WorktreeStatus::Active),
    ];
    let selected = select_for_deletion(&worktrees, SelectionFilter::OrphanedAndStale);
    assert_eq!(selected.len(), 2);
}

#[test]
fn flags_pick_the_filter_with_orphaned_winning() {
    assert_eq!(SelectionFilter::from_flags(false, false), SelectionFilter::AllSelectable);
    assert_eq!(SelectionFilter::from_flags(true, false), SelectionFilter::OrphanedOnly);
    assert_eq!(SelectionFilter::from_flags(false, true), SelectionFilter::OrphanedAndStale);
    assert_eq!(SelectionFilter::from_flags(true, true), SelectionFilter::OrphanedOnly);
}

#[test]
fn the_main_working_tree_matches_no_filter_and_selection_keeps_scan_order() {
    let worktrees = vec![
        fake_worktree("/active", WorktreeStatus::Active),
        fake_worktree("/main", WorktreeStatus::MainRepo),
        fake_worktree("/orphaned", WorktreeStatus::Orphaned),
    ];
    for filter in [
        SelectionFilter::AllSelectable,
        SelectionFilter::OrphanedOnly,
        SelectionFilter::OrphanedAndStale,
    ] {
        assert!(!matches_filter(&worktrees[1], filter));
    }
    let selected = select_for_deletion(&worktrees, SelectionFilter::AllSelectable);
    let paths: Vec<&str> = selected.iter().map(|w| w.path.as_str()).collect();
    assert_eq!(paths, vec!["/active", "/orphaned"]);
}
