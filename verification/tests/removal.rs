use worktree_cleaner::delete::{
    DeleteAction, DeleteOutcome, DeletionRun, GitRemoveReply, Reclaimed, RemovalStep, RunRequest,
    continue_git_removal, finish_directory_removal, first_step_with, start_removal,
};
use worktree_cleaner::worktree::{Worktree, WorktreeStatus};

fn fake_worktree(path: &str, status: WorktreeStatus) -> Worktree {
    Worktree {
        path: path.to_string(),
        repo_path: None,
        branch: None,
        head: None,
        last_commit: None,
        last_modified: None,
        status,
        merged: false,
        dirty: false,
        size_bytes: None,
    }
}

fn linked(path: &str) -> Worktree {
    Worktree {
        repo_path: Some("/code/repo/.git".to_string()),
        ..fake_worktree(path, WorktreeStatus::Active)
    }
}

fn finished(step: RemovalStep) -> DeleteOutcome {
    match step {
        RemovalStep::Finished(o) => o,
        other => panic!("expected a final outcome, got {other:?}"),
    }
}

#[test]
fn the_main_working_tree_is_skipped_even_with_a_repository() {
    let main = Worktree {
        repo_path: Some("/code/repo/.git".to_string()),
        ..fake_worktree("/code/repo", WorktreeStatus::MainRepo)
    };
    let o = finished(start_removal(&main, false));
    assert_eq!(o.action, DeleteAction::Skipped);
    assert_eq!(o.detail, "main working tree");
    assert_eq!(o.path, "/code/repo");
}

#[test]
fn an_orphaned_worktree_is_removed_from_the_filesystem() {
    let wt = fake_worktree("/code/orphan", WorktreeStatus::Orphaned);
    assert!(matches!(start_removal(&wt, false), RemovalStep::RemoveDirectory));

    let ok = finish_directory_removal(&wt, Ok(()));
    assert_eq!(ok.action, DeleteAction::Removed);
    assert_eq!(ok.detail, "removed orphaned directory");

    let err = finish_directory_removal(&wt, Err("permission denied".to_string()));
    assert_eq!(err.action, DeleteAction::Failed);
    assert_eq!(err.detail, "permission denied");
}

#[test]
fn a_dry_run_touches_nothing() {
    let o = finished(start_removal(&fake_worktree("/o", WorktreeStatus::Orphaned), true));
    assert_eq!(o.action, DeleteAction::DryRun);
    assert_eq!(o.detail, "would remove orphaned directory");

    let o = finished(start_removal(&linked("/code/wt"), true));
    assert_eq!(o.action, DeleteAction::DryRun);
    assert_eq!(o.detail, "would run git worktree remove");
}

#[test]
fn every_outcome_of_a_dry_run_is_a_dry_run() {
    let main = Worktree {
        repo_path: Some("/code/repo/.git".to_string()),
        ..fake_worktree("/code/repo", WorktreeStatus::MainRepo)
    };
    let o = finished(start_removal(&main, true));
    assert_eq!(o.action, DeleteAction::DryRun);
    assert_eq!(o.detail, "main working tree, never removed");

    let o = finished(start_removal(&fake_worktree("/code/wt", WorktreeStatus::Stale), true));
    assert_eq!(o.action, DeleteAction::DryRun);
    assert_eq!(o.detail, "no owning repository");
}

#[test]
fn a_linked_worktree_is_removed_by_git_from_its_repository() {
    match start_removal(&linked("/code/wt"), false) {
        RemovalStep::GitRemove { repo_dir, force } => {
            assert_eq!(repo_dir, "/code/repo");
            assert!(!force);
        }
        other => panic!("expected a git run, got {other:?}"),
    }
}

#[test]
fn a_worktree_without_a_known_repository_fails() {
    let o = finished(start_removal(&fake_worktree("/code/wt", WorktreeStatus::Stale), false));
    assert_eq!(o.action, DeleteAction::Failed);
    assert_eq!(o.detail, "no owning repository");
}

#[test]
fn a_successful_git_run_removes_the_worktree() {
    let wt = linked("/code/wt");
    let repo = "/code/repo".to_string();
    let reply = GitRemoveReply::Exited { success: true, stderr: String::new() };
    let o = finished(continue_git_removal(&wt, &repo, false, false, reply));
    assert_eq!(o.action, DeleteAction::Removed);
    assert_eq!(o.detail, "git worktree remove");
    assert_eq!(o.path, "/code/wt");
}

#[test]
fn a_refusal_fails_with_the_trimmed_error_without_force() {
    let wt = linked("/code/wt");
    let repo = "/code/repo".to_string();
    let reply = GitRemoveReply::Exited {
        success: false,
        stderr: "  fatal: contains modified or untracked files\n".to_string(),
    };
    let o = finished(continue_git_removal(&wt, &repo, false, false, reply));
    assert_eq!(o.action, DeleteAction::Failed);
    assert_eq!(o.detail, "fatal: contains modified or untracked files");
}

#[test]
fn a_refusal_is_retried_once_with_force() {
    let wt = linked("/code/wt");
    let repo = "/code/repo".to_string();
    let refused = GitRemoveReply::Exited { success: false, stderr: "fatal: dirty".to_string() };
    match continue_git_removal(&wt, &repo, false, true, refused) {
        RemovalStep::GitRemove { repo_dir, force } => {
            assert_eq!(repo_dir, "/code/repo");
            assert!(force);
        }
        other => panic!("expected a forced retry, got {other:?}"),
    }

    let ok = GitRemoveReply::Exited { success: true, stderr: String::new() };
    let o = finished(continue_git_removal(&wt, &repo, true, true, ok));
    assert_eq!(o.action, DeleteAction::Removed);
    assert!(o.detail.contains("force"));
    assert_eq!(o.detail, "force-removed (had local changes)");

    let refused_again = GitRemoveReply::Exited { success: false, stderr: "still no\n".to_string() };
    let o = finished(continue_git_removal(&wt, &repo, true, true, refused_again));
    assert_eq!(o.action, DeleteAction::Failed);
    assert_eq!(o.detail, "still no");
}

#[test]
fn git_that_cannot_run_fails_with_the_reason() {
    let wt = linked("/code/wt");
    let repo = "/code/repo".to_string();
    let o = finished(continue_git_removal(
        &wt,
        &repo,
        false,
        true,
        GitRemoveReply::NotRun("No such file or directory".to_string()),
    ));
    assert_eq!(o.action, DeleteAction::Failed);
    assert_eq!(o.detail, "No such file or directory");
}

#[test]
fn verbs_name_each_action() {
    assert_eq!(DeleteAction::Removed.verb(), "removed");
    assert_eq!(DeleteAction::DryRun.verb(), "would remove");
    assert_eq!(DeleteAction::Skipped.verb(), "skipped");
    assert_eq!(DeleteAction::Failed.verb(), "failed");
}

#[test]
fn reclaimed_space_counts_removals_and_dry_runs_apart() {
    let items = vec![
        Worktree {
            size_bytes: Some(1024),
            ..fake_worktree("/a", WorktreeStatus::Orphaned)
        },
        Worktree {
            size_bytes: None,
            ..fake_worktree("/b", WorktreeStatus::Stale)
        },
        Worktree {
            size_bytes: Some(2048),
            ..fake_worktree("/c", WorktreeStatus::Active)
        },
    ];
    let outcomes = vec![
        DeleteOutcome {
            path: "/a".to_string(),
            action: DeleteAction::Removed,
            detail: "removed orphaned directory".to_string(),
        },
        DeleteOutcome {
            path: "/b".to_string(),
            action: DeleteAction::Removed,
            detail: "git worktree remove".to_string(),
        },
        DeleteOutcome {
            path: "/c".to_string(),
            action: DeleteAction::Failed,
            detail: "boom".to_string(),
        },
    ];
    let r = Reclaimed::of(&items, &outcomes);
    assert_eq!(r.freed.known_bytes(), 1024);
    assert!(r.freed.partial());
    assert_eq!(r.freed.label().as_deref(), Some(">= 1.0 KB"));
    assert_eq!(r.would_free.label(), None);
}

#[test]
fn one_failure_does_not_abort_the_rest() {
    let worktrees = vec![
        fake_worktree("/code/repo", WorktreeStatus::MainRepo),
        fake_worktree("/code/orphan", WorktreeStatus::Orphaned),
        linked("/code/broken"),
        fake_worktree("/code/no-repo", WorktreeStatus::Stale),
        linked("/code/healthy"),
    ];
    let mut run = DeletionRun::new(worktrees, false, false);

    // The main working tree is settled at once; the orphan needs the disk.
    match run.next_request() {
        RunRequest::RemoveDirectory(path) => assert_eq!(path, "/code/orphan"),
        other => panic!("expected a directory removal, got {other:?}"),
    }
    assert_eq!(run.done_count(), 1);
    assert_eq!(run.outcome(0).action, DeleteAction::Skipped);
    run.directory_removed(Err("permission denied".to_string()));

    match run.next_request() {
        RunRequest::GitRemove { repo_dir, path, force } => {
            assert_eq!(repo_dir, "/code/repo");
            assert_eq!(path, "/code/broken");
            assert!(!force);
        }
        other => panic!("expected a git run, got {other:?}"),
    }
    let answer = run.git_replied(GitRemoveReply::NotRun("git not found".to_string()));
    assert!(matches!(answer, RunRequest::Done));

    // The worktree with no owning repository fails at once; the healthy
    // one after it is still asked for.
    match run.next_request() {
        RunRequest::GitRemove { path, .. } => assert_eq!(path, "/code/healthy"),
        other => panic!("expected a git run, got {other:?}"),
    }
    assert_eq!(run.done_count(), 4);
    assert_eq!(run.outcome(3).action, DeleteAction::Failed);
    assert_eq!(run.outcome(3).detail, "no owning repository");
    run.git_replied(GitRemoveReply::Exited { success: true, stderr: String::new() });

    assert!(matches!(run.next_request(), RunRequest::Done));
    let outcomes = run.into_outcomes();
    let summary: Vec<(&str, DeleteAction)> =
        outcomes.iter().map(|o| (o.path.as_str(), o.action)).collect();
    assert_eq!(
        summary,
        vec![
            ("/code/repo", DeleteAction::Skipped),
            ("/code/orphan", DeleteAction::Failed),
            ("/code/broken", DeleteAction::Failed),
            ("/code/no-repo", DeleteAction::Failed),
            ("/code/healthy", DeleteAction::Removed),
        ]
    );
    assert_eq!(outcomes[1].detail, "permission denied");
}

#[test]
fn a_forced_run_retries_a_refusal_once() {
    let mut run = DeletionRun::new(vec![linked("/code/dirty")], false, true);
    assert!(matches!(run.next_request(), RunRequest::GitRemove { force: false, .. }));
    let retry = run.git_replied(GitRemoveReply::Exited {
        success: false,
        stderr: "fatal: contains modified files".to_string(),
    });
    assert!(matches!(retry, RunRequest::GitRemove { force: true, .. }));
    let done = run.git_replied(GitRemoveReply::Exited { success: true, stderr: String::new() });
    assert!(matches!(done, RunRequest::Done));
    assert!(matches!(run.next_request(), RunRequest::Done));
    let outcomes = run.into_outcomes();
    assert_eq!(outcomes.len(), 1);
    assert_eq!(outcomes[0].detail, "force-removed (had local changes)");
}

#[test]
fn a_dry_run_needs_no_work_at_all() {
    let worktrees = vec![
        fake_worktree("/o", WorktreeStatus::Orphaned),
        linked("/l"),
        fake_worktree("/m", WorktreeStatus::MainRepo),
    ];
    let mut run = DeletionRun::new(worktrees, true, false);
    assert!(matches!(run.next_request(), RunRequest::Done));
    let actions: Vec<DeleteAction> = run.into_outcomes().iter().map(|o| o.action).collect();
    assert_eq!(actions, vec![DeleteAction::DryRun, DeleteAction::DryRun, DeleteAction::DryRun]);
}

#[test]
fn an_empty_run_is_done_at_once() {
    let mut run = DeletionRun::new(Vec::new(), false, false);
    assert!(matches!(run.next_request(), RunRequest::Done));
    assert!(run.into_outcomes().is_empty());
}

#[test]
fn the_first_step_follows_the_repository_directory_given() {
    let wt = fake_worktree("/code/wt", WorktreeStatus::Active);
    match first_step_with(&wt, false, Some("/elsewhere/repo".to_string())) {
        RemovalStep::GitRemove { repo_dir, force } => {
            assert_eq!(repo_dir, "/elsewhere/repo");
            assert!(!force);
        }
        other => panic!("expected a git run, got {other:?}"),
    }
    let o = finished(first_step_with(&wt, false, None));
    assert_eq!(o.action, DeleteAction::Failed);
    assert_eq!(o.detail, "no owning repository");
    let o = finished(first_step_with(&wt, true, None));
    assert_eq!(o.action, DeleteAction::DryRun);
    assert_eq!(o.detail, "no owning repository");
    let o = finished(first_step_with(&wt, true, Some("/r".to_string())));
    assert_eq!(o.detail, "would run git worktree remove");
}
