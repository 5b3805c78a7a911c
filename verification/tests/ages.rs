use worktree_cleaner::worktree::{Worktree, WorktreeStatus, days_between};

const NOW: i64 = 1_700_000_000;
const DAY: i64 = 86_400;

fn at(last_commit: Option<i64>, last_modified: Option<i64>) -> Worktree {
    Worktree {
        path: "/w".to_string(),
        repo_path: None,
        branch: None,
        head: None,
        last_commit,
        last_modified,
        status: WorktreeStatus::Active,
        merged: false,
        dirty: false,
        size_bytes: None,
    }
}

#[test]
fn ages_are_coarse_labels() {
    assert_eq!(at(Some(NOW - 3600), None).age_label(NOW), "today");
    assert_eq!(at(Some(NOW - DAY), None).age_label(NOW), "1 day ago");
    assert_eq!(at(Some(NOW - 2 * DAY), None).age_label(NOW), "2 days ago");
    assert_eq!(at(Some(NOW - 30 * DAY), None).age_label(NOW), "30 days ago");
    assert_eq!(at(Some(NOW - 31 * DAY), None).age_label(NOW), "1 mo ago");
    assert_eq!(at(Some(NOW - 364 * DAY), None).age_label(NOW), "12 mo ago");
    assert_eq!(at(Some(NOW - 365 * DAY), None).age_label(NOW), "1 yr ago");
    assert_eq!(at(Some(NOW - 800 * DAY), None).age_label(NOW), "2 yr ago");
}

#[test]
fn the_last_commit_wins_over_the_modification_time() {
    assert_eq!(at(Some(NOW - 2 * DAY), Some(NOW)).age_label(NOW), "2 days ago");
    assert_eq!(at(None, Some(NOW - 2 * DAY)).age_label(NOW), "2 days ago");
    assert_eq!(at(None, None).age_label(NOW), "unknown");
    assert_eq!(at(None, None).age_label(NOW), "unknown");
}

#[test]
fn days_are_whole_and_never_negative() {
    assert_eq!(days_between(NOW, NOW - DAY + 1), 0);
    assert_eq!(days_between(NOW, NOW - 2 * DAY), 2);
    assert_eq!(days_between(NOW, NOW + 5 * DAY), 0);
    assert_eq!(days_between(i64::MAX, i64::MIN), (u64::MAX / 86_400 as u64));
}

#[test]
fn status_labels_are_short_and_lowercase() {
    assert_eq!(WorktreeStatus::Orphaned.label(), "orphaned");
    assert_eq!(WorktreeStatus::Stale.label(), "stale");
    assert_eq!(WorktreeStatus::Active.label(), "active");
    assert_eq!(WorktreeStatus::MainRepo.label(), "main");
}
