use worktree_cleaner::delete::{DeleteAction, DeleteEvent, DeleteOutcome};
use worktree_cleaner::scan::ScanEvent;
use worktree_cleaner::tui::{AppState, Key, LoopAction, Phase, totals};
use worktree_cleaner::worktree::{Worktree, WorktreeStatus};

const NOW: i64 = 1_700_000_000;

fn fake_worktree(path: &str, status: WorktreeStatus) -> Worktree {
    Worktree {
        path: path.to_string(),
        repo_path: None,
        branch: None,
        head: None,
        last_commit: None,
        last_modified: None,
        status,
        merged: false,
        dirty: false,
        size_bytes: None,
    }
}

fn outcome(path: &str, action: DeleteAction, detail: &str) -> DeleteOutcome {
    DeleteOutcome {
        path: path.to_string(),
        action,
        detail: detail.to_string(),
    }
}

#[test]
fn apply_scan_event_progress_tracks_the_latest_path_only() {
    let mut state = AppState::new(false, false);
    state.apply_scan_event(ScanEvent::Progress("/a".to_string()), NOW);
    state.apply_scan_event(ScanEvent::Progress("/b".to_string()), NOW);

    assert_eq!(state.current_scan_path, Some("/b".to_string()));
}

#[test]
fn apply_scan_event_found_inserts_into_the_selector() {
    let mut state = AppState::new(false, false);
    state.apply_scan_event(ScanEvent::Found(fake_worktree("/a", WorktreeStatus::Orphaned)), NOW);

    assert_eq!(state.selector.items().len(), 1);
    assert_eq!(state.selector.items()[0].path.as_str(), "/a");
}

#[test]
fn apply_scan_event_size_updates_the_matching_worktree() {
    let mut state = AppState::new(false, false);
    state.apply_scan_event(ScanEvent::Found(fake_worktree("/a", WorktreeStatus::Orphaned)), NOW);
    state.apply_scan_event(ScanEvent::Size("/a".to_string(), 4096), NOW);

    assert_eq!(state.selector.items()[0].size_bytes, Some(4096));
}

#[test]
fn apply_scan_event_size_also_patches_a_pending_deletion_snapshot() {
    let mut state = AppState::new(false, false);
    state.apply_scan_event(ScanEvent::Found(fake_worktree("/a", WorktreeStatus::Orphaned)), NOW);
    state.selector.toggle();
    state.begin_deletion();
    assert_eq!(
        state.deletion_items[0].size_bytes, None,
        "precondition: size hadn't arrived yet at confirmation time"
    );

    // Arrives late, after the phase has already moved to `Deleting`.
    state.apply_scan_event(ScanEvent::Size("/a".to_string(), 4096), NOW);

    assert_eq!(state.deletion_items[0].size_bytes, Some(4096));
}

#[test]
fn apply_scan_event_done_marks_scan_done_and_clears_the_current_path() {
    let mut state = AppState::new(false, false);
    state.apply_scan_event(ScanEvent::Progress("/a".to_string()), NOW);
    state.apply_scan_event(ScanEvent::Done, NOW);

    assert!(state.scan_done);
    assert_eq!(state.current_scan_path, None);
}

#[test]
fn begin_deletion_returns_none_and_stays_in_browsing_when_nothing_selected() {
    let mut state = AppState::new(false, false);
    state.apply_scan_event(ScanEvent::Found(fake_worktree("/a", WorktreeStatus::Orphaned)), NOW);

    assert!(state.begin_deletion().is_none());
    assert_eq!(state.phase, Phase::Browsing);
}

#[test]
fn begin_deletion_snapshots_the_selection_and_switches_to_deleting() {
    let mut state = AppState::new(false, false);
    state.apply_scan_event(ScanEvent::Found(fake_worktree("/a", WorktreeStatus::Orphaned)), NOW);
    state.selector.toggle();

    let chosen = state.begin_deletion().expect("one worktree was selected");

    assert_eq!(chosen.len(), 1);
    assert_eq!(state.phase, Phase::Deleting);
    assert_eq!(state.deletion_outcomes, vec![None]);
}

#[test]
fn apply_delete_event_tracks_the_currently_deleting_path() {
    let mut state = AppState::new(false, false);
    state.apply_scan_event(ScanEvent::Found(fake_worktree("/a", WorktreeStatus::Orphaned)), NOW);
    state.selector.toggle();
    state.begin_deletion();

    state.apply_delete_event(DeleteEvent::Deleting("/a".to_string()));

    assert_eq!(state.deleting_path, Some("/a".to_string()));
}

#[test]
fn apply_delete_event_accumulates_outcomes_by_matching_path() {
    let mut state = AppState::new(false, false);
    state.apply_scan_event(ScanEvent::Found(fake_worktree("/a", WorktreeStatus::Orphaned)), NOW);
    state.apply_scan_event(ScanEvent::Found(fake_worktree("/b", WorktreeStatus::Stale)), NOW);
    state.selector.toggle_all();
    state.begin_deletion();

    // Outcomes can arrive in either order; they must land on the right
    // slot regardless.
    state.apply_delete_event(DeleteEvent::Deleted(outcome(
        "/b",
        DeleteAction::Removed,
        "git worktree remove",
    )));
    state.apply_delete_event(DeleteEvent::Deleted(outcome("/a", DeleteAction::Failed, "boom")));

    let a_index = state.deletion_items.iter().position(|w| w.path == "/a").unwrap();
    let b_index = state.deletion_items.iter().position(|w| w.path == "/b").unwrap();
    assert_eq!(
        state.deletion_outcomes[a_index].as_ref().unwrap().action,
        DeleteAction::Failed
    );
    assert_eq!(
        state.deletion_outcomes[b_index].as_ref().unwrap().action,
        DeleteAction::Removed
    );
}

#[test]
fn apply_delete_event_done_switches_phase_and_clears_deleting_path() {
    let mut state = AppState::new(false, false);
    state.apply_scan_event(ScanEvent::Found(fake_worktree("/a", WorktreeStatus::Orphaned)), NOW);
    state.selector.toggle();
    state.begin_deletion();
    state.apply_delete_event(DeleteEvent::Deleting("/a".to_string()));

    state.apply_delete_event(DeleteEvent::Done);

    assert_eq!(state.phase, Phase::Done);
    assert_eq!(state.deleting_path, None);
}

#[test]
fn into_results_pairs_worktrees_with_their_outcomes() {
    let mut state = AppState::new(false, false);
    state.apply_scan_event(ScanEvent::Found(fake_worktree("/a", WorktreeStatus::Orphaned)), NOW);
    state.selector.toggle();
    state.begin_deletion();
    state.apply_delete_event(DeleteEvent::Deleted(outcome(
        "/a",
        DeleteAction::Removed,
        "git worktree remove",
    )));

    let results = state.into_results();

    assert_eq!(results.len(), 1);
    assert_eq!(results[0].0.path.as_str(), "/a");
    assert_eq!(results[0].1.action, DeleteAction::Removed);
}

#[test]
fn into_results_drops_worktrees_with_no_recorded_outcome() {
    let mut state = AppState::new(false, false);
    state.apply_scan_event(ScanEvent::Found(fake_worktree("/a", WorktreeStatus::Orphaned)), NOW);
    state.apply_scan_event(ScanEvent::Found(fake_worktree("/b", WorktreeStatus::Stale)), NOW);
    state.selector.toggle_all();
    state.begin_deletion();
    // Only /a's outcome ever arrives (e.g. the process was interrupted).
    state.apply_delete_event(DeleteEvent::Deleted(outcome(
        "/a",
        DeleteAction::Removed,
        "git worktree remove",
    )));

    let results = state.into_results();

    assert_eq!(results.len(), 1);
    assert_eq!(results[0].0.path.as_str(), "/a");
}

#[test]
fn totals_reports_known_bytes_and_flags_partial_when_a_size_is_still_pending() {
    let items = vec![
        Worktree {
            size_bytes: Some(100),
            ..fake_worktree("/a", WorktreeStatus::Orphaned)
        },
        Worktree {
            size_bytes: None, // still pending
            ..fake_worktree("/b", WorktreeStatus::Stale)
        },
    ];
    let outcomes = vec![
        Some(outcome("/a", DeleteAction::Removed, "git worktree remove")),
        Some(outcome("/b", DeleteAction::Removed, "git worktree remove")),
    ];

    let ((freed, freed_partial), (would_free, would_free_partial)) = totals(&items, &outcomes);

    assert_eq!(freed, 100, "should sum the known size");
    assert!(freed_partial, "should flag that /b's size wasn't known");
    assert_eq!(would_free, 0);
    assert!(!would_free_partial);
}

#[test]
fn totals_is_not_partial_once_every_relevant_size_is_known() {
    let items = vec![Worktree {
        size_bytes: Some(100),
        ..fake_worktree("/a", WorktreeStatus::Orphaned)
    }];
    let outcomes = vec![Some(outcome("/a", DeleteAction::Removed, "git worktree remove"))];

    let ((freed, freed_partial), _) = totals(&items, &outcomes);

    assert_eq!(freed, 100);
    assert!(!freed_partial);
}

#[test]
fn totals_ignores_worktrees_with_no_outcome_yet() {
    let items = vec![Worktree {
        size_bytes: None,
        ..fake_worktree("/a", WorktreeStatus::Stale)
    }];
    let outcomes: Vec<Option<DeleteOutcome>> = vec![None];

    let ((freed, freed_partial), (would_free, would_free_partial)) = totals(&items, &outcomes);

    assert_eq!((freed, would_free), (0, 0));
    assert!(!freed_partial);
    assert!(!would_free_partial);
}

#[test]
fn totals_count_dry_runs_separately_and_ignore_skips_and_failures() {
    let items = vec![
        Worktree {
            size_bytes: Some(10),
            ..fake_worktree("/a", WorktreeStatus::Orphaned)
        },
        Worktree {
            size_bytes: Some(20),
            ..fake_worktree("/b", WorktreeStatus::Stale)
        },
        Worktree {
            size_bytes: None,
            ..fake_worktree("/c", WorktreeStatus::Active)
        },
        Worktree {
            size_bytes: Some(40),
            ..fake_worktree("/m", WorktreeStatus::MainRepo)
        },
    ];
    let outcomes = vec![
        Some(outcome("/a", DeleteAction::DryRun, "would remove orphaned directory")),
        Some(outcome("/b", DeleteAction::Failed, "boom")),
        Some(outcome("/c", DeleteAction::DryRun, "would run git worktree remove")),
        Some(outcome("/m", DeleteAction::Skipped, "main working tree")),
    ];
    assert_eq!(totals(&items, &outcomes), ((0, false), (10, true)));
}

fn state_with(worktrees: Vec<Worktree>, dry_run: bool) -> AppState {
    let mut state = AppState::new(dry_run, false);
    for w in worktrees {
        state.apply_scan_event(ScanEvent::Found(w), 1_700_000_000);
    }
    state
}

#[test]
fn q_and_esc_cancel_the_list_and_change_nothing() {
    let mut state = state_with(vec![fake_worktree("/a", WorktreeStatus::Stale)], false);
    state.selector.toggle();
    assert!(matches!(state.handle_key(Key::Char('q'), NOW), LoopAction::Cancel));
    assert!(matches!(state.handle_key(Key::Esc, NOW), LoopAction::Cancel));
    assert_eq!(state.phase, Phase::Browsing);
    assert!(state.selector.is_selected(0));
}

#[test]
fn enter_with_nothing_selected_cancels() {
    let mut state = state_with(vec![fake_worktree("/a", WorktreeStatus::Stale)], false);
    assert!(matches!(state.handle_key(Key::Enter, NOW), LoopAction::Cancel));
    assert_eq!(state.phase, Phase::Browsing);
}

#[test]
fn enter_on_a_clean_selection_starts_deleting_it() {
    let mut state = state_with(
        vec![
            fake_worktree("/a", WorktreeStatus::Stale),
            fake_worktree("/b", WorktreeStatus::Active),
        ],
        false,
    );
    state.handle_key(Key::Char('x'), NOW);
    match state.handle_key(Key::Enter, NOW) {
        LoopAction::StartDeletion { chosen, dry_run, force } => {
            assert_eq!(chosen.len(), 1);
            assert_eq!(chosen[0].path.as_str(), "/a");
            assert!(!dry_run);
            assert!(!force);
        }
        other => panic!("expected deletion to start, got {other:?}"),
    }
    assert_eq!(state.phase, Phase::Deleting);
    assert_eq!(state.deletion_outcomes, vec![None]);
}

#[test]
fn local_changes_are_confirmed_with_a_second_enter_and_then_forced() {
    let dirty = Worktree {
        dirty: true,
        ..fake_worktree("/dirty", WorktreeStatus::Stale)
    };
    let mut state = state_with(vec![dirty], false);
    state.handle_key(Key::Char(' '), NOW);
    assert!(matches!(state.handle_key(Key::Enter, NOW), LoopAction::Continue));
    assert_eq!(state.phase, Phase::Confirming);
    assert_eq!(state.dirty_selection().len(), 1);
    assert!(state.deletion_items.is_empty());

    match state.handle_key(Key::Enter, NOW) {
        LoopAction::StartDeletion { chosen, force, .. } => {
            assert_eq!(chosen.len(), 1);
            assert!(force, "confirmed worktrees with local changes are removed forcibly");
        }
        other => panic!("expected deletion to start, got {other:?}"),
    }
    assert_eq!(state.phase, Phase::Deleting);
}

#[test]
fn backing_out_of_the_confirmation_returns_to_the_list() {
    let dirty = Worktree {
        dirty: true,
        ..fake_worktree("/dirty", WorktreeStatus::Stale)
    };
    let mut state = state_with(vec![dirty], false);
    state.handle_key(Key::Char('x'), NOW);
    state.handle_key(Key::Enter, NOW);
    assert!(matches!(state.handle_key(Key::Esc, NOW), LoopAction::Continue));
    assert_eq!(state.phase, Phase::Browsing);
    assert!(state.selector.is_selected(0));
}

#[test]
fn a_dry_run_does_not_ask_about_local_changes() {
    let dirty = Worktree {
        dirty: true,
        ..fake_worktree("/dirty", WorktreeStatus::Stale)
    };
    let mut state = state_with(vec![dirty], true);
    state.handle_key(Key::Char('a'), NOW);
    match state.handle_key(Key::Enter, NOW) {
        LoopAction::StartDeletion { dry_run, force, .. } => {
            assert!(dry_run);
            assert!(!force);
        }
        other => panic!("expected deletion to start, got {other:?}"),
    }
}

#[test]
fn keys_move_and_toggle_in_the_list() {
    let mut state = state_with(
        vec![
            fake_worktree("/a", WorktreeStatus::Orphaned),
            fake_worktree("/b", WorktreeStatus::Stale),
        ],
        false,
    );
    state.handle_key(Key::Down, NOW);
    assert_eq!(state.selector.cursor(), 1);
    state.handle_key(Key::Char('k'), NOW);
    assert_eq!(state.selector.cursor(), 0);
    state.handle_key(Key::Char('j'), NOW);
    state.handle_key(Key::Char('x'), NOW);
    assert!(state.selector.is_selected(1));
    state.handle_key(Key::Up, NOW);
    assert_eq!(state.selector.cursor(), 0);
    assert!(matches!(state.handle_key(Key::Other, NOW), LoopAction::Continue));
}

#[test]
fn only_ctrl_c_leaves_while_deleting() {
    let mut state = state_with(vec![fake_worktree("/a", WorktreeStatus::Stale)], false);
    state.handle_key(Key::Char('x'), NOW);
    state.handle_key(Key::Enter, NOW);
    assert_eq!(state.phase, Phase::Deleting);
    assert!(matches!(state.handle_key(Key::Char('q'), NOW), LoopAction::Continue));
    assert!(matches!(state.handle_key(Key::Esc, NOW), LoopAction::Continue));
    assert!(matches!(state.handle_key(Key::CtrlC, NOW), LoopAction::Abort));
}

#[test]
fn the_summary_is_left_with_enter_q_or_esc() {
    let mut state = state_with(vec![fake_worktree("/a", WorktreeStatus::Stale)], false);
    state.handle_key(Key::Char('x'), NOW);
    state.handle_key(Key::Enter, NOW);
    state.apply_delete_event(DeleteEvent::Done);
    assert!(matches!(state.handle_key(Key::Char('j'), NOW), LoopAction::Continue));
    assert!(matches!(state.handle_key(Key::Enter, NOW), LoopAction::Finish));
    assert!(matches!(state.handle_key(Key::Char('q'), NOW), LoopAction::Finish));
}

#[test]
fn an_outcome_for_an_unknown_path_is_ignored() {
    let mut state = state_with(vec![fake_worktree("/a", WorktreeStatus::Stale)], false);
    state.handle_key(Key::Char('x'), NOW);
    state.handle_key(Key::Enter, NOW);
    state.apply_delete_event(DeleteEvent::Deleted(outcome(
        "/elsewhere",
        DeleteAction::Removed,
        "git worktree remove",
    )));
    assert_eq!(state.deletion_outcomes, vec![None]);
}
