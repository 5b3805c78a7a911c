use worktree_cleaner::delete::{DeleteAction, DeleteEvent, DeleteOutcome};
use worktree_cleaner::scan::ScanEvent;
use worktree_cleaner::screen::{
    Tone, browsing_footer, browsing_status, browsing_title, confirm_footer, confirm_status, deleting_footer,
    deleting_status, deleting_title, deletion_row, empty_list_message, list_rows, outcome_tone,
    status_tone, worktree_row_at,
};
use worktree_cleaner::sorting::{SortColumn, SortOrder};
use worktree_cleaner::tui::{AppState, Key};
use worktree_cleaner::worktree::{Worktree, WorktreeStatus};

const NOW: i64 = 1_700_000_000;

fn fake_worktree(path: &str, status: WorktreeStatus) -> Worktree {
    Worktree {
        path: path.to_string(),
        repo_path: None,
        branch: None,
        head: None,
        last_commit: None,
        last_modified: None,
        status,
        merged: false,
        dirty: false,
        size_bytes: None,
    }
}

#[test]
fn a_row_aligns_its_columns() {
    let w = Worktree {
        branch: Some("topic".to_string()),
        head: Some("abc1234".to_string()),
        size_bytes: Some(1536),
        last_commit: Some(NOW - 2 * 86_400),
        ..fake_worktree("/code/wt", WorktreeStatus::Stale)
    };
    let expected = format!(
        "{} {:<8} {:>12} {:>9}  {:<22} {:<8} {}",
        "[x]", "stale", "2 days ago", "1.5 KB", "topic", "abc1234", "wt"
    );
    assert_eq!(worktree_row_at(&w, true, true, NOW, Some("/code")), expected);
}

#[test]
fn a_row_shows_placeholders_and_a_blank_mark_for_the_main_tree() {
    let w = fake_worktree("/code/repo", WorktreeStatus::MainRepo);
    let expected = format!(
        "{} {:<8} {:>12} {:>9}  {:<22} {:<8} {}",
        "   ", "main", "unknown", "…", "-", "-", "/code/repo"
    );
    assert_eq!(worktree_row_at(&w, false, false, NOW, None), expected);
    let unselected = worktree_row_at(&fake_worktree("/x", WorktreeStatus::Active), true, false, NOW, None);
    assert!(unselected.starts_with("[ ] active  "));
}

#[test]
fn the_list_rows_follow_the_selection() {
    let mut state = AppState::new(false, false);
    state.apply_scan_event(ScanEvent::Found(fake_worktree("/a", WorktreeStatus::Orphaned)), NOW);
    state.apply_scan_event(ScanEvent::Found(fake_worktree("/m", WorktreeStatus::MainRepo)), NOW);
    state.handle_key(Key::Char('a'), NOW);
    let rows = list_rows(&state.selector, NOW, None);
    assert_eq!(rows.len(), 2);
    assert!(rows[0].starts_with("[x] orphaned"));
    assert!(rows[1].starts_with("    main"));
}

#[test]
fn status_lines_follow_the_scan() {
    let mut state = AppState::new(false, false);
    assert_eq!(browsing_status(&state, None), "Scanning…");
    state.apply_scan_event(ScanEvent::Progress("/code/deep/dir".to_string()), NOW);
    assert_eq!(browsing_status(&state, Some("/code")), "Checking deep/dir");
    state.apply_scan_event(ScanEvent::Done, NOW);
    assert_eq!(browsing_status(&state, None), "Scan complete.");
    assert_eq!(empty_list_message(true), "No git worktrees found.");
    assert_eq!(empty_list_message(false), "Scanning for worktrees…");
}

#[test]
fn the_footer_counts_the_selection_and_its_size() {
    let mut state = AppState::new(false, false);
    for p in ["/a", "/b"] {
        let w = Worktree {
            size_bytes: Some(1024),
            ..fake_worktree(p, WorktreeStatus::Stale)
        };
        state.apply_scan_event(ScanEvent::Found(w), NOW);
    }
    state.handle_key(Key::Char('a'), NOW);
    assert_eq!(
        browsing_footer(&state),
        " 2 selected (2.0 KB) · space/x toggle · a all · s/S sort · ↑/↓ move · enter delete · q cancel · scanning…"
    );
    state.apply_scan_event(ScanEvent::Done, NOW);
    state.handle_key(Key::Char('x'), NOW);
    assert_eq!(
        browsing_footer(&state),
        " 1 selected (1.0 KB) · space/x toggle · a all · s/S sort · ↑/↓ move · enter delete · q cancel"
    );
}

#[test]
fn deletion_screens_report_progress_then_a_summary() {
    let mut state = AppState::new(false, false);
    let w = Worktree {
        size_bytes: Some(2048),
        ..fake_worktree("/a", WorktreeStatus::Orphaned)
    };
    state.apply_scan_event(ScanEvent::Found(w), NOW);
    state.apply_scan_event(ScanEvent::Found(fake_worktree("/b", WorktreeStatus::Stale)), NOW);
    state.handle_key(Key::Char('a'), NOW);
    state.handle_key(Key::Enter, NOW);
    assert_eq!(deleting_status(&state, None), "Deleting…");
    state.apply_delete_event(DeleteEvent::Deleting("/a".to_string()));
    assert_eq!(deleting_status(&state, None), "Deleting /a");
    assert_eq!(deleting_footer(&state), " 0/2 processed… · ctrl-c abort");
    state.apply_delete_event(DeleteEvent::Deleted(DeleteOutcome {
        path: "/a".to_string(),
        action: DeleteAction::Removed,
        detail: "removed orphaned directory".to_string(),
    }));
    assert_eq!(deleting_footer(&state), " 1/2 processed… · ctrl-c abort");
    state.apply_delete_event(DeleteEvent::Deleted(DeleteOutcome {
        path: "/b".to_string(),
        action: DeleteAction::Removed,
        detail: "git worktree remove".to_string(),
    }));
    state.apply_delete_event(DeleteEvent::Done);
    assert_eq!(deleting_status(&state, None), "Done.");
    assert_eq!(
        deleting_footer(&state),
        " 2/2 done · freed >= 2.0 KB · press enter/q to exit"
    );
    assert_eq!(deleting_title(false), " worktree-cleaner — deleting ");
}

#[test]
fn a_dry_run_says_what_it_would_free() {
    let mut state = AppState::new(true, false);
    let w = Worktree {
        size_bytes: Some(512),
        ..fake_worktree("/a", WorktreeStatus::Orphaned)
    };
    state.apply_scan_event(ScanEvent::Found(w), NOW);
    state.handle_key(Key::Char('x'), NOW);
    state.handle_key(Key::Enter, NOW);
    state.apply_delete_event(DeleteEvent::Deleting("/a".to_string()));
    assert_eq!(deleting_status(&state, None), "(dry run) Checking /a");
    state.apply_delete_event(DeleteEvent::Deleted(DeleteOutcome {
        path: "/a".to_string(),
        action: DeleteAction::DryRun,
        detail: "would remove orphaned directory".to_string(),
    }));
    state.apply_delete_event(DeleteEvent::Done);
    assert_eq!(
        deleting_footer(&state),
        " 1/1 done · would free 512 B · press enter/q to exit"
    );
    assert_eq!(deleting_title(true), " worktree-cleaner — dry run ");
}

#[test]
fn deletion_rows_show_the_verb_path_and_detail() {
    let w = fake_worktree("/code/a", WorktreeStatus::Stale);
    assert_eq!(deletion_row(&w, &None, None), format!("{:<13} {}", "pending", "/code/a"));
    let o = Some(DeleteOutcome {
        path: "/code/a".to_string(),
        action: DeleteAction::DryRun,
        detail: "would run git worktree remove".to_string(),
    });
    assert_eq!(
        deletion_row(&w, &o, Some("/code")),
        format!("{:<13} {} ({})", "would remove", "a", "would run git worktree remove")
    );
}

#[test]
fn tones_follow_status_and_outcome() {
    assert_eq!(status_tone(WorktreeStatus::Orphaned), Tone::Alert);
    assert_eq!(status_tone(WorktreeStatus::Stale), Tone::Warn);
    assert_eq!(status_tone(WorktreeStatus::Active), Tone::Normal);
    assert_eq!(status_tone(WorktreeStatus::MainRepo), Tone::Muted);
    let mk = |action| {
        Some(DeleteOutcome {
            path: "/a".to_string(),
            action,
            detail: String::new(),
        })
    };
    assert_eq!(outcome_tone(&mk(DeleteAction::Removed)), Tone::Good);
    assert_eq!(outcome_tone(&mk(DeleteAction::DryRun)), Tone::Warn);
    assert_eq!(outcome_tone(&mk(DeleteAction::Skipped)), Tone::Muted);
    assert_eq!(outcome_tone(&mk(DeleteAction::Failed)), Tone::Alert);
    assert_eq!(outcome_tone(&None), Tone::Muted);
}

#[test]
fn the_confirmation_screen_counts_worktrees_with_local_changes() {
    assert_eq!(
        confirm_status(2),
        "2 selected worktree(s) have uncommitted or untracked changes:"
    );
    assert!(confirm_footer().contains("enter"));
}

#[test]
fn the_title_names_a_sort_other_than_relevance() {
    assert_eq!(
        browsing_title(SortOrder::by_relevance()),
        " worktree-cleaner — pick worktrees to delete "
    );
    assert_eq!(
        browsing_title(SortOrder { column: SortColumn::Age, reversed: false }),
        " worktree-cleaner — pick worktrees to delete · sorted by age "
    );
    assert_eq!(
        browsing_title(SortOrder { column: SortColumn::Relevance, reversed: true }),
        " worktree-cleaner — pick worktrees to delete · sorted by relevance, reversed "
    );
}
