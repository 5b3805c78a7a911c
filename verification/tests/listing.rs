use worktree_cleaner::delete::{DeleteAction, DeleteOutcome};
use worktree_cleaner::noninteractive::{any_failed, branch_label, empty_plan_notice, empty_session_notice, list, plan_deletion, report, skip_notice};
use worktree_cleaner::paths::{display_path, shown_relative};
use worktree_cleaner::selection::SelectionFilter;
use worktree_cleaner::worktree::{Worktree, WorktreeStatus};

const NOW: i64 = 1_700_000_000;

fn fake_worktree(path: &str, status: WorktreeStatus) -> Worktree {
    Worktree {
        path: path.to_string(),
        repo_path: None,
        branch: None,
        head: None,
        last_commit: None,
        last_modified: None,
        status,
        merged: false,
        dirty: false,
        size_bytes: None,
    }
}

fn sample() -> Vec<Worktree> {
    vec![
        fake_worktree("/code/repo", WorktreeStatus::MainRepo),
        Worktree {
            branch: Some("feat".to_string()),
            merged: true,
            size_bytes: Some(2048),
            last_commit: Some(NOW - 3 * 86_400),
            ..fake_worktree("/code/feat", WorktreeStatus::Active)
        },
        fake_worktree("/code/gone", WorktreeStatus::Orphaned),
    ]
}

#[test]
fn the_table_lists_worktrees_best_candidates_first() {
    let lines = list(&sample(), false, NOW, None);
    assert_eq!(
        lines,
        vec![
            "STATUS\tAGE\tSIZE\tBRANCH\tPATH",
            "orphaned\tunknown\tunknown\t-\t/code/gone",
            "active\t3 days ago\t2.0 KB\tfeat (merged)\t/code/feat",
            "main\tunknown\tunknown\t-\t/code/repo",
        ]
    );
}

#[test]
fn a_dry_run_table_marks_deletable_rows_and_counts_them() {
    let lines = list(&sample(), true, NOW, Some("/code"));
    assert_eq!(
        lines,
        vec![
            "STATUS\tAGE\tSIZE\tBRANCH\tDELETE\tPATH",
            "orphaned\tunknown\tunknown\t-\tyes\tgone",
            "active\t3 days ago\t2.0 KB\tfeat (merged)\tyes\tfeat",
            "main\tunknown\tunknown\t-\tno\trepo",
            "",
            "2 worktree(s) would be deleted (pass --yes to confirm).",
        ]
    );
}

#[test]
fn a_dry_run_table_with_nothing_deletable_has_no_note() {
    let only_main = vec![fake_worktree("/code/repo", WorktreeStatus::MainRepo)];
    let lines = list(&only_main, true, NOW, None);
    assert_eq!(
        lines,
        vec!["STATUS\tAGE\tSIZE\tBRANCH\tDELETE\tPATH", "main\tunknown\tunknown\t-\tno\t/code/repo"]
    );
}

#[test]
fn branch_labels_tag_merged_branches() {
    let mut w = fake_worktree("/w", WorktreeStatus::Stale);
    assert_eq!(branch_label(&w), "-");
    w.merged = true;
    assert_eq!(branch_label(&w), "(merged)");
    w.branch = Some("topic".to_string());
    assert_eq!(branch_label(&w), "topic (merged)");
    w.merged = false;
    assert_eq!(branch_label(&w), "topic");
}

#[test]
fn a_yes_run_holds_back_worktrees_with_local_changes_unless_forced() {
    let worktrees = vec![
        fake_worktree("/orphan", WorktreeStatus::Orphaned),
        Worktree {
            dirty: true,
            ..fake_worktree("/dirty-stale", WorktreeStatus::Stale)
        },
        fake_worktree("/active", WorktreeStatus::Active),
        fake_worktree("/main", WorktreeStatus::MainRepo),
    ];
    let (to_delete, skipped) = plan_deletion(&worktrees, SelectionFilter::OrphanedAndStale, false);
    let names: Vec<&str> = to_delete.iter().map(|w| w.path.as_str()).collect();
    assert_eq!(names, vec!["/orphan"]);
    let held: Vec<&str> = skipped.iter().map(|w| w.path.as_str()).collect();
    assert_eq!(held, vec!["/dirty-stale"]);

    let (to_delete, skipped) = plan_deletion(&worktrees, SelectionFilter::AllSelectable, true);
    let names: Vec<&str> = to_delete.iter().map(|w| w.path.as_str()).collect();
    assert_eq!(names, vec!["/orphan", "/dirty-stale", "/active"]);
    assert!(skipped.is_empty());
}

#[test]
fn nothing_matching_gives_an_empty_plan() {
    let worktrees = vec![fake_worktree("/main", WorktreeStatus::MainRepo)];
    let (to_delete, skipped) = plan_deletion(&worktrees, SelectionFilter::AllSelectable, false);
    assert!(to_delete.is_empty() && skipped.is_empty());
}

#[test]
fn a_held_back_worktree_is_named_on_its_own_line() {
    let w = fake_worktree("/code/wip", WorktreeStatus::Stale);
    assert_eq!(
        skip_notice(&w, Some("/code")),
        "skipping wip: local changes (use --force to delete)"
    );
}

#[test]
fn the_report_lists_outcomes_then_totals() {
    let items = vec![
        Worktree {
            size_bytes: Some(1024),
            ..fake_worktree("/code/a", WorktreeStatus::Orphaned)
        },
        Worktree {
            size_bytes: None,
            ..fake_worktree("/code/b", WorktreeStatus::Stale)
        },
    ];
    let outcomes = vec![
        DeleteOutcome {
            path: "/code/a".to_string(),
            action: DeleteAction::Removed,
            detail: "removed orphaned directory".to_string(),
        },
        DeleteOutcome {
            path: "/code/b".to_string(),
            action: DeleteAction::Removed,
            detail: "force-removed (had local changes)".to_string(),
        },
    ];
    assert_eq!(
        report(&items, &outcomes, None),
        vec![
            "removed: /code/a (removed orphaned directory)",
            "removed: /code/b (force-removed (had local changes))",
            "Freed >= 1.0 KB.",
        ]
    );
    assert!(!any_failed(&outcomes));
}

#[test]
fn a_dry_run_report_says_what_would_be_freed() {
    let items = vec![Worktree {
        size_bytes: Some(1536),
        ..fake_worktree("/code/a", WorktreeStatus::Stale)
    }];
    let outcomes = vec![DeleteOutcome {
        path: "/code/a".to_string(),
        action: DeleteAction::DryRun,
        detail: "would run git worktree remove".to_string(),
    }];
    assert_eq!(
        report(&items, &outcomes, Some("/code")),
        vec!["would remove: a (would run git worktree remove)", "Would free 1.5 KB."]
    );
}

#[test]
fn a_failure_is_reported_and_flagged() {
    let items = vec![fake_worktree("/x", WorktreeStatus::Stale)];
    let outcomes = vec![DeleteOutcome {
        path: "/x".to_string(),
        action: DeleteAction::Failed,
        detail: "boom".to_string(),
    }];
    assert_eq!(report(&items, &outcomes, None), vec!["failed: /x (boom)"]);
    assert!(any_failed(&outcomes));
}

#[test]
fn paths_are_shown_relative_to_the_current_directory_when_below_it() {
    assert_eq!(display_path("/home/u/code/wt", Some("/home/u")), "code/wt");
    assert_eq!(display_path("/home/u", Some("/home/u")), "/home/u");
    assert_eq!(display_path("/definitely/outside", Some("/home/u")), "/definitely/outside");
    assert_eq!(display_path("/home/user2/x", Some("/home/u")), "/home/user2/x");
    assert_eq!(display_path("/a/b", None), "/a/b");
}

#[test]
fn nothing_to_act_on_is_said_in_one_line() {
    let main = vec![fake_worktree("/main", WorktreeStatus::MainRepo)];
    let (to_delete, skipped) = plan_deletion(&main, SelectionFilter::AllSelectable, false);
    assert_eq!(empty_plan_notice(&to_delete, &skipped), Some("Nothing to delete."));

    let dirty = vec![Worktree {
        dirty: true,
        ..fake_worktree("/wip", WorktreeStatus::Stale)
    }];
    let (to_delete, skipped) = plan_deletion(&dirty, SelectionFilter::AllSelectable, false);
    assert_eq!(empty_plan_notice(&to_delete, &skipped), None);

    assert_eq!(empty_session_notice(&[]), Some("Nothing selected."));
    let one = vec![(
        fake_worktree("/a", WorktreeStatus::Stale),
        DeleteOutcome {
            path: "/a".to_string(),
            action: DeleteAction::Removed,
            detail: "git worktree remove".to_string(),
        },
    )];
    assert_eq!(empty_session_notice(&one), None);
}

#[test]
fn a_path_is_shown_by_its_remainder_below_the_current_directory() {
    assert_eq!(shown_relative("/home/u/code/wt", Some("code/wt".to_string())), "code/wt");
    assert_eq!(shown_relative("/home/u", Some(String::new())), "/home/u");
    assert_eq!(shown_relative("/elsewhere", None), "/elsewhere");
}
