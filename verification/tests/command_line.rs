use worktree_cleaner::cli::{Args, RunMode};
use worktree_cleaner::selection::SelectionFilter;

fn args() -> Args {
    Args {
        path: ".".to_string(),
        dry_run: false,
        yes: false,
        force: false,
        orphaned: false,
        stale: false,
        all: false,
    }
}

#[test]
fn a_terminal_without_flags_opens_the_interactive_session() {
    assert_eq!(args().run_mode(true, true), RunMode::Interactive);
    assert_eq!(Args { dry_run: true, ..args() }.run_mode(true, true), RunMode::Interactive);
}

#[test]
fn without_a_terminal_the_table_is_printed() {
    assert_eq!(args().run_mode(false, true), RunMode::ListOnly);
    assert_eq!(args().run_mode(true, false), RunMode::ListOnly);
}

#[test]
fn yes_always_deletes_without_prompting() {
    let a = Args { yes: true, ..args() };
    assert_eq!(a.run_mode(true, true), RunMode::NonInteractive);
    assert_eq!(a.run_mode(false, false), RunMode::NonInteractive);
}

#[test]
fn refining_flags_never_fall_through_to_the_interactive_session() {
    for a in [
        Args { force: true, ..args() },
        Args { orphaned: true, ..args() },
        Args { stale: true, ..args() },
        Args { all: true, ..args() },
    ] {
        assert!(a.has_noninteractive_flags());
        assert_eq!(a.run_mode(true, true), RunMode::ListOnly);
    }
    assert!(!args().has_noninteractive_flags());
}

#[test]
fn the_filter_follows_the_flags() {
    assert_eq!(args().filter(), SelectionFilter::AllSelectable);
    assert_eq!(Args { all: true, ..args() }.filter(), SelectionFilter::AllSelectable);
    assert_eq!(Args { orphaned: true, ..args() }.filter(), SelectionFilter::OrphanedOnly);
    assert_eq!(Args { stale: true, ..args() }.filter(), SelectionFilter::OrphanedAndStale);
}
