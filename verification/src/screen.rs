//! What the interactive session's screens say: the rows of the worktree
//! list, the status and footer lines of each phase, and the tone each row
//! is drawn in. The terminal drawing itself is the caller's; every text it
//! shows is computed here.

use vstd::prelude::*;

use crate::delete::{
    DeleteAction, DeleteOutcome, action_bytes, action_partial, pending_actions_of, verb_text,
};
use crate::noninteractive::{branch_label, branch_text, cwd_view};
use crate::paths::{display_path, shown_path};
use crate::selection::selectable;
use crate::size::{format_size, size_text};
use crate::text::{pad_left, pad_right, push_decimal, push_padded_left, push_padded_right, decimal};
use crate::sorting::{SortOrder, column_name, default_order};
use crate::tui::{AppState, Phase, Selector, selected_total, totals};
use crate::worktree::{Worktree, WorktreeStatus, age_label_text, status_label};

verus! {

/// The colour family a row is drawn in.
#[derive(Debug, Clone, Copy, PartialEq, Eq, Structural)]
pub enum Tone {
    /// Needs attention (orphaned, failed).
    Alert,
    /// Worth a look (stale, dry run).
    Warn,
    /// The terminal's default.
    Normal,
    /// Greyed out (main working tree, skipped, pending).
    Muted,
    /// Success (removed).
    Good,
}

/// The tone of a worktree row, by status.
pub open spec fn status_tone_of(s: WorktreeStatus) -> Tone {
    match s {
        WorktreeStatus::Orphaned => Tone::Alert,
        WorktreeStatus::Stale => Tone::Warn,
        WorktreeStatus::Active => Tone::Normal,
        WorktreeStatus::MainRepo => Tone::Muted,
    }
}

/// The tone of a worktree row, by status.
pub fn status_tone(status: WorktreeStatus) -> (r: Tone)
    ensures
        r == status_tone_of(status),
{
    match status {
        WorktreeStatus::Orphaned => Tone::Alert,
        WorktreeStatus::Stale => Tone::Warn,
        WorktreeStatus::Active => Tone::Normal,
        WorktreeStatus::MainRepo => Tone::Muted,
    }
}

/// The tone of a deletion row, by outcome (`None` while pending).
pub open spec fn outcome_tone_of(o: Option<DeleteOutcome>) -> Tone {
    match o {
        Some(o) => match o.action {
            DeleteAction::Removed => Tone::Good,
            DeleteAction::DryRun => Tone::Warn,
            DeleteAction::Skipped => Tone::Muted,
            DeleteAction::Failed => Tone::Alert,
        },
        None => Tone::Muted,
    }
}

/// The tone of a deletion row, by outcome (`None` while pending).
pub fn outcome_tone(outcome: &Option<DeleteOutcome>) -> (r: Tone)
    ensures
        r == outcome_tone_of(*outcome),
{
    match outcome {
        Some(o) => match o.action {
            DeleteAction::Removed => Tone::Good,
            DeleteAction::DryRun => Tone::Warn,
            DeleteAction::Skipped => Tone::Muted,
            DeleteAction::Failed => Tone::Alert,
        },
        None => Tone::Muted,
    }
}

/// The selection mark of a row: blank when it cannot be selected.
pub open spec fn mark_text(selectable: bool, selected: bool) -> Seq<char> {
    if !selectable {
        "   "@
    } else if selected {
        "[x]"@
    } else {
        "[ ]"@
    }
}

/// The size column of a row: `…` while the size is still being computed.
pub open spec fn size_column(w: Worktree) -> Seq<char> {
    match w.size_bytes {
        Some(b) => size_text(b as nat),
        None => "…"@,
    }
}

/// The HEAD column of a row.
pub open spec fn head_column(w: Worktree) -> Seq<char> {
    match w.head {
        Some(h) => h@,
        None => "-"@,
    }
}

/// One row of the worktree list at time `now`: mark, status, age, size,
/// branch, HEAD and path, in aligned columns.
pub open spec fn row_text(
    w: Worktree,
    selectable: bool,
    selected: bool,
    now: i64,
    cwd: Option<Seq<char>>,
) -> Seq<char> {
    mark_text(selectable, selected) + " "@ + pad_right(status_label(w.status), 8) + " "@ + pad_left(
        age_label_text(w, now as int),
        12,
    ) + " "@ + pad_left(size_column(w), 9) + "  "@ + pad_right(branch_text(w), 22) + " "@
        + pad_right(head_column(w), 8) + " "@ + shown_path(w.path@, cwd)
}

/// One row of the worktree list at time `now`.
pub fn worktree_row_at(
    w: &Worktree,
    selectable: bool,
    selected: bool,
    now: i64,
    cwd: Option<&str>,
) -> (r: String)
    ensures
        r@ == row_text(*w, selectable, selected, now, cwd_view(cwd)),
{
    let mut s = if !selectable {
        String::from_str("   ")
    } else if selected {
        String::from_str("[x]")
    } else {
        String::from_str("[ ]")
    };
    s.append(" ");
    push_padded_right(&mut s, w.status.label(), 8);
    s.append(" ");
    let age = w.age_label(now);
    push_padded_left(&mut s, age.as_str(), 12);
    s.append(" ");
    match w.size_bytes {
        Some(b) => {
            let t = format_size(b);
            push_padded_left(&mut s, t.as_str(), 9);
        },
        None => {
            push_padded_left(&mut s, "…", 9);
        },
    }
    s.append("  ");
    let branch = branch_label(w);
    push_padded_right(&mut s, branch.as_str(), 22);
    s.append(" ");
    match &w.head {
        Some(h) => push_padded_right(&mut s, h.as_str(), 8),
        None => push_padded_right(&mut s, "-", 8),
    }
    s.append(" ");
    let shown = display_path(w.path.as_str(), cwd);
    s.append(shown.as_str());
    assert(s@ =~= row_text(*w, selectable, selected, now, cwd_view(cwd)));
    s
}

/// The rows of the list shown by `sel` at time `now`.
pub open spec fn list_rows_text(sel: Selector, now: i64, cwd: Option<Seq<char>>) -> Seq<Seq<char>> {
    Seq::new(
        sel.rows().len(),
        |i: int| row_text(sel.rows()[i], selectable(sel.rows()[i]), sel.flags()[i], now, cwd),
    )
}

/// The rows of the list shown by `sel` at time `now`, one string each.
pub fn list_rows(sel: &Selector, now: i64, cwd: Option<&str>) -> (r: Vec<String>)
    requires
        sel.wf(),
    ensures
        r@.len() == list_rows_text(*sel, now, cwd_view(cwd)).len(),
        forall|i: int| 0 <= i < r@.len() ==> #[trigger] r@[i]@ == list_rows_text(*sel, now, cwd_view(cwd))[i],
{
    let items = sel.items();
    let mut out: Vec<String> = Vec::new();
    let mut i: usize = 0;
    while i < items.len()
        invariant
            sel.wf(),
            items@ == sel.rows(),
            i <= items@.len(),
            out@.len() == i,
            forall|k: int|
                0 <= k < i ==> #[trigger] out@[k]@ == list_rows_text(*sel, now, cwd_view(cwd))[k],
        decreases items@.len() - i,
    {
        let row = worktree_row_at(&items[i], sel.selectable(i), sel.is_selected(i), now, cwd);
        out.push(row);
        i = i + 1;
    }
    out
}

/// The line shown in place of the list while it is empty.
pub fn empty_list_message(scan_done: bool) -> (r: &'static str)
    ensures
        r@ == if scan_done {
            "No git worktrees found."@
        } else {
            "Scanning for worktrees…"@
        },
{
    if scan_done {
        "No git worktrees found."
    } else {
        "Scanning for worktrees…"
    }
}

/// The title of the list: it names the sort unless it is the default one.
pub open spec fn browsing_title_text(o: SortOrder) -> Seq<char> {
    if o == default_order() {
        " worktree-cleaner — pick worktrees to delete "@
    } else {
        " worktree-cleaner — pick worktrees to delete · sorted by "@ + column_name(o.column) + (
        if o.reversed {
            ", reversed"@
        } else {
            Seq::empty()
        }) + " "@
    }
}

/// The title of the list.
pub fn browsing_title(o: SortOrder) -> (r: String)
    ensures
        r@ == browsing_title_text(o),
{
    if o == SortOrder::by_relevance() {
        return String::from_str(" worktree-cleaner — pick worktrees to delete ");
    }
    let mut s = String::from_str(" worktree-cleaner — pick worktrees to delete · sorted by ");
    s.append(o.column.name());
    if o.reversed {
        s.append(", reversed");
    }
    s.append(" ");
    s
}

/// The status line above the list: the directory being visited, or
/// whether the scan is still running.
pub open spec fn browsing_status_text(s: AppState, cwd: Option<Seq<char>>) -> Seq<char> {
    match s.current_scan_path {
        Some(p) => "Checking "@ + shown_path(p@, cwd),
        None => if s.scan_done {
            "Scan complete."@
        } else {
            "Scanning…"@
        },
    }
}

/// The status line above the list.
pub fn browsing_status(state: &AppState, cwd: Option<&str>) -> (r: String)
    ensures
        r@ == browsing_status_text(*state, cwd_view(cwd)),
{
    match &state.current_scan_path {
        Some(p) => {
            let mut s = String::from_str("Checking ");
            let shown = display_path(p.as_str(), cwd);
            s.append(shown.as_str());
            s
        },
        None => if state.scan_done {
            String::from_str("Scan complete.")
        } else {
            String::from_str("Scanning…")
        },
    }
}

/// How many flags of `flags` are set.
pub open spec fn count_set(flags: Seq<bool>) -> nat
    decreases flags.len(),
{
    if flags.len() == 0 {
        0
    } else {
        count_set(flags.drop_last()) + if flags.last() {
            1nat
        } else {
            0
        }
    }
}

proof fn lemma_count_set_bound(flags: Seq<bool>)
    ensures
        count_set(flags) <= flags.len(),
    decreases flags.len(),
{
    if flags.len() > 0 {
        lemma_count_set_bound(flags.drop_last());
    }
}

/// The footer of the list: how many rows are selected and their total
/// known size (capped at `u64::MAX`), the keys, and a reminder while the
/// scan runs.
pub open spec fn browsing_footer_text(s: AppState) -> Seq<char> {
    let total = selected_total(s.selector.rows(), s.selector.flags());
    " "@ + decimal(count_set(s.selector.flags())) + " selected ("@ + size_text(
        if total > u64::MAX {
            u64::MAX as nat
        } else {
            total
        },
    ) + ") · space/x toggle · a all · s/S sort · ↑/↓ move · enter delete · q cancel"@ + if s.scan_done {
        Seq::empty()
    } else {
        " · scanning…"@
    }
}

/// The footer of the list.
pub fn browsing_footer(state: &AppState) -> (r: String)
    requires
        state.wf(),
    ensures
        r@ == browsing_footer_text(*state),
{
    let sel = &state.selector;
    let n = sel.items().len();
    let mut count: usize = 0;
    let mut i: usize = 0;
    while i < n
        invariant
            sel.wf(),
            n == sel.rows().len(),
            i <= n,
            count == count_set(sel.flags().subrange(0, i as int)),
        decreases n - i,
    {
        assert(sel.flags().subrange(0, i + 1).drop_last() =~= sel.flags().subrange(0, i as int));
        proof {
            lemma_count_set_bound(sel.flags().subrange(0, i as int));
        }
        if sel.is_selected(i) {
            count = count + 1;
        }
        i = i + 1;
    }
    assert(sel.flags().subrange(0, n as int) =~= sel.flags());
    let total = match sel.selected_size_checked() {
        Some(t) => t,
        None => u64::MAX,
    };
    let mut s = String::from_str(" ");
    push_decimal(&mut s, count as u128);
    s.append(" selected (");
    let size = format_size(total);
    s.append(size.as_str());
    s.append(") · space/x toggle · a all · s/S sort · ↑/↓ move · enter delete · q cancel");
    if !state.scan_done {
        s.append(" · scanning…");
    }
    s
}

/// The status line while confirming: how many of the chosen worktrees have
/// local changes.
pub open spec fn confirm_status_text(dirty: nat) -> Seq<char> {
    decimal(dirty) + " selected worktree(s) have uncommitted or untracked changes:"@
}

/// The status line while confirming.
pub fn confirm_status(dirty: usize) -> (r: String)
    ensures
        r@ == confirm_status_text(dirty as nat),
{
    let mut s = String::new();
    push_decimal(&mut s, dirty as u128);
    s.append(" selected worktree(s) have uncommitted or untracked changes:");
    s
}

/// The footer while confirming.
pub fn confirm_footer() -> (r: &'static str)
    ensures
        r@ == " enter delete them anyway · q/esc back to the list"@,
{
    " enter delete them anyway · q/esc back to the list"
}

/// The status line while deleting or done.
pub open spec fn deleting_status_text(s: AppState, cwd: Option<Seq<char>>) -> Seq<char> {
    if s.phase == Phase::Deleting {
        match s.deleting_path {
            Some(p) => if s.dry_run {
                "(dry run) Checking "@ + shown_path(p@, cwd)
            } else {
                "Deleting "@ + shown_path(p@, cwd)
            },
            None => "Deleting…"@,
        }
    } else {
        "Done."@
    }
}

/// The status line while deleting or done.
pub fn deleting_status(state: &AppState, cwd: Option<&str>) -> (r: String)
    ensures
        r@ == deleting_status_text(*state, cwd_view(cwd)),
{
    if state.phase == Phase::Deleting {
        match &state.deleting_path {
            Some(p) => {
                let mut s = if state.dry_run {
                    String::from_str("(dry run) Checking ")
                } else {
                    String::from_str("Deleting ")
                };
                let shown = display_path(p.as_str(), cwd);
                s.append(shown.as_str());
                s
            },
            None => String::from_str("Deleting…"),
        }
    } else {
        String::from_str("Done.")
    }
}

/// The title of the list while deleting or done.
pub fn deleting_title(dry_run: bool) -> (r: &'static str)
    ensures
        r@ == if dry_run {
            " worktree-cleaner — dry run "@
        } else {
            " worktree-cleaner — deleting "@
        },
{
    if dry_run {
        " worktree-cleaner — dry run "
    } else {
        " worktree-cleaner — deleting "
    }
}

/// One row of the deletion list: the verb (`pending` until the outcome
/// arrives) padded to a column, the path, and the outcome's detail.
pub open spec fn deletion_row_text(w: Worktree, o: Option<DeleteOutcome>, cwd: Option<Seq<char>>) -> Seq<
    char,
> {
    pad_right(
        match o {
            Some(o) => verb_text(o.action),
            None => "pending"@,
        },
        13,
    ) + " "@ + shown_path(w.path@, cwd) + match o {
        Some(o) => " ("@ + o.detail@ + ")"@,
        None => Seq::empty(),
    }
}

/// One row of the deletion list.
pub fn deletion_row(w: &Worktree, outcome: &Option<DeleteOutcome>, cwd: Option<&str>) -> (r: String)
    ensures
        r@ == deletion_row_text(*w, *outcome, cwd_view(cwd)),
{
    let mut s = String::new();
    match outcome {
        Some(o) => push_padded_right(&mut s, o.action.verb(), 13),
        None => push_padded_right(&mut s, "pending", 13),
    }
    s.append(" ");
    let shown = display_path(w.path.as_str(), cwd);
    s.append(shown.as_str());
    match outcome {
        Some(o) => {
            s.append(" (");
            s.append(o.detail.as_str());
            s.append(")");
        },
        None => {},
    }
    s
}

/// How many outcomes have arrived.
pub open spec fn arrived(outcomes: Seq<Option<DeleteOutcome>>) -> nat
    decreases outcomes.len(),
{
    if outcomes.len() == 0 {
        0
    } else {
        arrived(outcomes.drop_last()) + if outcomes.last() is Some {
            1nat
        } else {
            0
        }
    }
}

proof fn lemma_arrived_bound(outcomes: Seq<Option<DeleteOutcome>>)
    ensures
        arrived(outcomes) <= outcomes.len(),
    decreases outcomes.len(),
{
    if outcomes.len() > 0 {
        lemma_arrived_bound(outcomes.drop_last());
    }
}

/// The part of the summary for one total, present when there is something
/// to report.
pub open spec fn total_part(label: Seq<char>, known: nat, partial: bool) -> Seq<char> {
    if known > 0 || partial {
        " · "@ + label + (if partial {
            ">= "@
        } else {
            Seq::empty()
        }) + size_text(known)
    } else {
        Seq::empty()
    }
}

/// The footer while deleting (progress) or done (summary with the space
/// freed, or that a dry run would free).
pub open spec fn deleting_footer_text(s: AppState) -> Seq<char> {
    let done = arrived(s.deletion_outcomes@);
    let total = s.deletion_items@.len();
    if s.phase == Phase::Deleting {
        " "@ + decimal(done) + "/"@ + decimal(total) + " processed… · ctrl-c abort"@
    } else {
        let acts = pending_actions_of(s.deletion_outcomes@);
        " "@ + decimal(done) + "/"@ + decimal(total) + " done"@ + total_part(
            "freed "@,
            action_bytes(s.deletion_items@, acts, DeleteAction::Removed, total),
            action_partial(s.deletion_items@, acts, DeleteAction::Removed, total),
        ) + total_part(
            "would free "@,
            action_bytes(s.deletion_items@, acts, DeleteAction::DryRun, total),
            action_partial(s.deletion_items@, acts, DeleteAction::DryRun, total),
        ) + " · press enter/q to exit"@
    }
}

/// Append the part of the summary for one total.
fn push_total_part(s: &mut String, label: &str, known: u64, partial: bool)
    ensures
        final(s)@ == old(s)@ + total_part(label@, known as nat, partial),
{
    if known > 0 || partial {
        s.append(" · ");
        s.append(label);
        if partial {
            s.append(">= ");
        }
        let size = format_size(known);
        s.append(size.as_str());
    }
}

/// The footer while deleting or done.
pub fn deleting_footer(state: &AppState) -> (r: String)
    requires
        state.wf(),
    ensures
        r@ == deleting_footer_text(*state),
{
    let outcomes = &state.deletion_outcomes;
    let n = outcomes.len();
    let mut done: usize = 0;
    let mut i: usize = 0;
    while i < n
        invariant
            n == outcomes@.len(),
            i <= n,
            done == arrived(outcomes@.subrange(0, i as int)),
        decreases n - i,
    {
        assert(outcomes@.subrange(0, i + 1).drop_last() =~= outcomes@.subrange(0, i as int));
        proof {
            lemma_arrived_bound(outcomes@.subrange(0, i as int));
        }
        if outcomes[i].is_some() {
            done = done + 1;
        }
        i = i + 1;
    }
    assert(outcomes@.subrange(0, n as int) =~= outcomes@);
    let total = state.deletion_items.len();
    let mut s = String::from_str(" ");
    push_decimal(&mut s, done as u128);
    s.append("/");
    push_decimal(&mut s, total as u128);
    if state.phase == Phase::Deleting {
        s.append(" processed… · ctrl-c abort");
    } else {
        s.append(" done");
        let ((freed, freed_partial), (would_free, would_free_partial)) = totals(
            state.deletion_items.as_slice(),
            state.deletion_outcomes.as_slice(),
        );
        push_total_part(&mut s, "freed ", freed, freed_partial);
        push_total_part(&mut s, "would free ", would_free, would_free_partial);
        s.append(" · press enter/q to exit");
    }
    s
}

} // verus!
