//! Running without the interactive session: the ranked tab-separated table
//! printed when no terminal is attached, the plan of a `--yes` run (what is
//! removed and what is held back for local changes), and the report of
//! what happened. The caller scans, prints and performs the removals; the
//! lines and the plan are computed here.

use vstd::prelude::*;

use crate::delete::{
    DeleteAction, DeleteOutcome, Reclaimed, action_bytes, action_partial, actions_of, verb_text,
};
use crate::paths::{display_path, shown_path};
use crate::score::{rank_at, ranked};
use crate::selection::{SelectionFilter, admits, is_selectable, matches_filter, selectable};
use crate::size::{amount_text, format_size, size_text};
use crate::text::{decimal, push_decimal};
use crate::worktree::{Worktree, WorktreeStatus, age_label_text, status_label};

verus! {

/// The view of an optional current directory.
pub open spec fn cwd_view(cwd: Option<&str>) -> Option<Seq<char>> {
    match cwd {
        Some(c) => Some(c@),
        None => None,
    }
}

/// The branch column: the branch name, tagged `(merged)` when merged.
pub open spec fn branch_text(w: Worktree) -> Seq<char> {
    match w.branch {
        Some(b) => if w.merged {
            b@ + " (merged)"@
        } else {
            b@
        },
        None => if w.merged {
            "(merged)"@
        } else {
            "-"@
        },
    }
}

/// The size column of the table: the size, or `unknown`.
pub open spec fn size_cell(w: Worktree) -> Seq<char> {
    match w.size_bytes {
        Some(b) => size_text(b as nat),
        None => "unknown"@,
    }
}

/// The header line of the table; a dry run adds the `DELETE` column.
pub open spec fn table_header(dry_run: bool) -> Seq<char> {
    if dry_run {
        "STATUS\tAGE\tSIZE\tBRANCH\tDELETE\tPATH"@
    } else {
        "STATUS\tAGE\tSIZE\tBRANCH\tPATH"@
    }
}

/// One line of the table for `w` at time `now`.
pub open spec fn table_row(w: Worktree, dry_run: bool, now: i64, cwd: Option<Seq<char>>) -> Seq<
    char,
> {
    status_label(w.status) + "\t"@ + age_label_text(w, now as int) + "\t"@ + size_cell(w) + "\t"@
        + branch_text(w) + (if dry_run {
        "\t"@ + if selectable(w) {
            "yes"@
        } else {
            "no"@
        }
    } else {
        Seq::empty()
    }) + "\t"@ + shown_path(w.path@, cwd)
}

/// How many worktrees of `s` may be deleted.
pub open spec fn selectable_count(s: Seq<Worktree>) -> nat
    decreases s.len(),
{
    if s.len() == 0 {
        0
    } else {
        selectable_count(s.drop_last()) + if selectable(s.last()) {
            1nat
        } else {
            0
        }
    }
}

/// The closing note of a dry-run table, when something would be deleted.
pub open spec fn table_note(n: nat) -> Seq<char> {
    decimal(n) + " worktree(s) would be deleted (pass --yes to confirm)."@
}

/// The lines of the table for `ws` at time `now`: the header, one row per
/// worktree from best to worst deletion candidate, and (in a dry run, when
/// some worktree would be deleted) a blank line and a count of them.
pub open spec fn table(ws: Seq<Worktree>, dry_run: bool, now: i64, cwd: Option<Seq<char>>) -> Seq<
    Seq<char>,
> {
    let rows = ranked(ws, now);
    seq![table_header(dry_run)] + rows.map_values(|w: Worktree| table_row(w, dry_run, now, cwd))
        + if dry_run && selectable_count(rows) > 0 {
        seq![Seq::<char>::empty(), table_note(selectable_count(rows))]
    } else {
        Seq::<Seq<char>>::empty()
    }
}

/// Whether the strings `r` are exactly the texts `t`.
pub open spec fn lines_are(r: Seq<String>, t: Seq<Seq<char>>) -> bool {
    &&& r.len() == t.len()
    &&& forall|i: int| 0 <= i < r.len() ==> #[trigger] r[i]@ == t[i]
}

/// The branch column for `wt`.
pub fn branch_label(wt: &Worktree) -> (r: String)
    ensures
        r@ == branch_text(*wt),
{
    match &wt.branch {
        Some(b) => {
            let mut s = b.clone();
            if wt.merged {
                s.append(" (merged)");
            }
            s
        },
        None => if wt.merged {
            String::from_str("(merged)")
        } else {
            String::from_str("-")
        },
    }
}

/// One line of the table for `wt` at time `now`.
fn table_row_text(wt: &Worktree, dry_run: bool, now: i64, cwd: Option<&str>) -> (r: String)
    ensures
        r@ == table_row(*wt, dry_run, now, cwd_view(cwd)),
{
    let mut s = String::from_str(wt.status.label());
    s.append("\t");
    let age = wt.age_label(now);
    s.append(age.as_str());
    s.append("\t");
    match wt.size_bytes {
        Some(b) => {
            let t = format_size(b);
            s.append(t.as_str());
        },
        None => {
            s.append("unknown");
        },
    }
    s.append("\t");
    let branch = branch_label(wt);
    s.append(branch.as_str());
    if dry_run {
        s.append("\t");
        if is_selectable(wt) {
            s.append("yes");
        } else {
            s.append("no");
        }
    }
    s.append("\t");
    let shown = display_path(wt.path.as_str(), cwd);
    s.append(shown.as_str());
    assert(s@ =~= table_row(*wt, dry_run, now, cwd_view(cwd)));
    s
}

/// The ranked table of `worktrees` as of `now` (see [`table`]), one string
/// per line; `cwd` is the current directory paths are shown relative to.
pub fn list(worktrees: &Vec<Worktree>, dry_run: bool, now: i64, cwd: Option<&str>) -> (r: Vec<
    String,
>)
    ensures
        lines_are(r@, table(worktrees@, dry_run, now, cwd_view(cwd))),
{
    let rows = rank_at(worktrees, now);
    let ghost c = cwd_view(cwd);
    let ghost body = rows@.map_values(|w: Worktree| table_row(w, dry_run, now, c));
    let mut lines: Vec<String> = Vec::new();
    if dry_run {
        lines.push(String::from_str("STATUS\tAGE\tSIZE\tBRANCH\tDELETE\tPATH"));
    } else {
        lines.push(String::from_str("STATUS\tAGE\tSIZE\tBRANCH\tPATH"));
    }
    let mut would_delete: usize = 0;
    let mut i: usize = 0;
    while i < rows.len()
        invariant
            i <= rows@.len(),
            c == cwd_view(cwd),
            body == rows@.map_values(|w: Worktree| table_row(w, dry_run, now, c)),
            would_delete == selectable_count(rows@.subrange(0, i as int)),
            would_delete <= i,
            lines_are(lines@, seq![table_header(dry_run)] + body.subrange(0, i as int)),
        decreases rows@.len() - i,
    {
        let line = table_row_text(&rows[i], dry_run, now, cwd);
        lines.push(line);
        assert(rows@.subrange(0, i + 1).drop_last() =~= rows@.subrange(0, i as int));
        if is_selectable(&rows[i]) {
            would_delete = would_delete + 1;
        }
        i = i + 1;
        assert(seq![table_header(dry_run)] + body.subrange(0, i as int) =~= (seq![
            table_header(dry_run),
        ] + body.subrange(0, i - 1)).push(body[i - 1]));
    }
    assert(rows@.subrange(0, rows@.len() as int) =~= rows@);
    assert(body.subrange(0, rows@.len() as int) =~= body);
    if dry_run && would_delete > 0 {
        lines.push(String::new());
        let mut note = String::new();
        push_decimal(&mut note, would_delete as u128);
        note.append(" worktree(s) would be deleted (pass --yes to confirm).");
        lines.push(note);
        assert(seq![table_header(dry_run)] + body + seq![
            Seq::<char>::empty(),
            table_note(would_delete as nat),
        ] =~= (seq![table_header(dry_run)] + body).push(Seq::<char>::empty()).push(
            table_note(would_delete as nat),
        ));
    } else {
        assert(seq![table_header(dry_run)] + body + Seq::<Seq<char>>::empty() =~= seq![
            table_header(dry_run),
        ] + body);
    }
    lines
}

/// Whether a `--yes` run removes `w`: it matches the filter, and it has no
/// local changes unless `force`.
pub open spec fn removed_by_run(w: Worktree, filter: SelectionFilter, force: bool) -> bool {
    admits(filter, w) && (force || !w.dirty)
}

/// Whether a `--yes` run holds `w` back: it matches the filter but has local
/// changes, and `force` was not given.
pub open spec fn held_back_by_run(w: Worktree, filter: SelectionFilter, force: bool) -> bool {
    admits(filter, w) && !force && w.dirty
}

/// What a `--yes` run does with `worktrees`: the ones it removes and the
/// ones it holds back for local changes, each in scan order. Both empty
/// means nothing matched the filter.
pub fn plan_deletion(worktrees: &[Worktree], filter: SelectionFilter, force: bool) -> (r: (
    Vec<Worktree>,
    Vec<Worktree>,
))
    ensures
        r.0@ == worktrees@.filter(|w: Worktree| removed_by_run(w, filter, force)),
        r.1@ == worktrees@.filter(|w: Worktree| held_back_by_run(w, filter, force)),
{
    let mut to_delete: Vec<Worktree> = Vec::new();
    let mut skipped: Vec<Worktree> = Vec::new();
    let mut i: usize = 0;
    while i < worktrees.len()
        invariant
            i <= worktrees@.len(),
            to_delete@ == worktrees@.subrange(0, i as int).filter(
                |w: Worktree| removed_by_run(w, filter, force),
            ),
            skipped@ == worktrees@.subrange(0, i as int).filter(
                |w: Worktree| held_back_by_run(w, filter, force),
            ),
        decreases worktrees@.len() - i,
    {
        proof {
            reveal_with_fuel(Seq::filter, 1);
            assert(worktrees@.subrange(0, i + 1).drop_last() =~= worktrees@.subrange(0, i as int));
        }
        let wt = &worktrees[i];
        if matches_filter(wt, filter) {
            if force || !wt.dirty {
                to_delete.push(wt.clone());
            } else {
                skipped.push(wt.clone());
            }
        }
        i = i + 1;
    }
    assert(worktrees@.subrange(0, worktrees@.len() as int) =~= worktrees@);
    (to_delete, skipped)
}

/// The notice printed for a worktree held back for its local changes.
pub open spec fn skip_text(w: Worktree, cwd: Option<Seq<char>>) -> Seq<char> {
    "skipping "@ + shown_path(w.path@, cwd) + ": local changes (use --force to delete)"@
}

/// The notice printed for a worktree held back for its local changes.
pub fn skip_notice(wt: &Worktree, cwd: Option<&str>) -> (r: String)
    ensures
        r@ == skip_text(*wt, cwd_view(cwd)),
{
    let mut s = String::from_str("skipping ");
    let shown = display_path(wt.path.as_str(), cwd);
    s.append(shown.as_str());
    s.append(": local changes (use --force to delete)");
    s
}

/// The report line for worktree `w` with outcome `o`.
pub open spec fn outcome_text(w: Worktree, o: DeleteOutcome, cwd: Option<Seq<char>>) -> Seq<char> {
    verb_text(o.action) + ": "@ + shown_path(w.path@, cwd) + " ("@ + o.detail@ + ")"@
}

/// The total line for `label` (`Freed`, `Would free`), present when there
/// is something to report.
pub open spec fn total_lines(label: Seq<char>, known: nat, partial: bool) -> Seq<Seq<char>> {
    if known > 0 || partial {
        seq![label + " "@ + amount_text(known, partial) + "."@]
    } else {
        Seq::empty()
    }
}

/// The report of a run: one line per worktree and its outcome (paired by
/// position), then the space freed and the space a dry run would free.
pub open spec fn report_text(
    items: Seq<Worktree>,
    outcomes: Seq<DeleteOutcome>,
    cwd: Option<Seq<char>>,
) -> Seq<Seq<char>> {
    let n = if items.len() < outcomes.len() {
        items.len()
    } else {
        outcomes.len()
    };
    let acts = actions_of(outcomes);
    Seq::new(n, |i: int| outcome_text(items[i], outcomes[i], cwd)) + total_lines(
        "Freed"@,
        action_bytes(items, acts, DeleteAction::Removed, n),
        action_partial(items, acts, DeleteAction::Removed, n),
    ) + total_lines(
        "Would free"@,
        action_bytes(items, acts, DeleteAction::DryRun, n),
        action_partial(items, acts, DeleteAction::DryRun, n),
    )
}

/// The line for one total, if there is something to report.
fn total_line(label: &str, amount: crate::size::Amount) -> (r: Option<String>)
    ensures
        match r {
            Some(s) => total_lines(label@, amount.known(), amount.is_partial()) == seq![s@],
            None => total_lines(label@, amount.known(), amount.is_partial()) == Seq::<
                Seq<char>,
            >::empty(),
        },
{
    match amount.label() {
        Some(t) => {
            let mut s = String::from_str(label);
            s.append(" ");
            s.append(t.as_str());
            s.append(".");
            Some(s)
        },
        None => None,
    }
}

/// The report of a run (see [`report_text`]), one string per line.
pub fn report(items: &[Worktree], outcomes: &[DeleteOutcome], cwd: Option<&str>) -> (r: Vec<
    String,
>)
    ensures
        lines_are(r@, report_text(items@, outcomes@, cwd_view(cwd))),
{
    let n = if items.len() < outcomes.len() {
        items.len()
    } else {
        outcomes.len()
    };
    let ghost c = cwd_view(cwd);
    let ghost body = Seq::new(n as nat, |i: int| outcome_text(items@[i], outcomes@[i], c));
    let mut lines: Vec<String> = Vec::new();
    let mut i: usize = 0;
    while i < n
        invariant
            i <= n,
            n <= items@.len(),
            n <= outcomes@.len(),
            c == cwd_view(cwd),
            body == Seq::new(n as nat, |i: int| outcome_text(items@[i], outcomes@[i], c)),
            lines_are(lines@, body.subrange(0, i as int)),
        decreases n - i,
    {
        let mut s = String::from_str(outcomes[i].action.verb());
        s.append(": ");
        let shown = display_path(items[i].path.as_str(), cwd);
        s.append(shown.as_str());
        s.append(" (");
        s.append(outcomes[i].detail.as_str());
        s.append(")");
        assert(s@ =~= body[i as int]);
        lines.push(s);
        i = i + 1;
        assert(body.subrange(0, i as int) =~= body.subrange(0, i - 1).push(body[i - 1]));
    }
    assert(body.subrange(0, n as int) =~= body);
    let reclaimed = Reclaimed::of(items, outcomes);
    let ghost before = lines@;
    let freed = total_line("Freed", reclaimed.freed);
    let ghost freed_part = total_lines(
        "Freed"@,
        reclaimed.freed.known(),
        reclaimed.freed.is_partial(),
    );
    match freed {
        Some(s) => lines.push(s),
        None => {},
    }
    assert(lines_are(lines@, body + freed_part)) by {
        assert(forall|k: int| 0 <= k < before.len() ==> #[trigger] lines@[k] == before[k]);
    }
    let ghost mid = lines@;
    let would = total_line("Would free", reclaimed.would_free);
    let ghost would_part = total_lines(
        "Would free"@,
        reclaimed.would_free.known(),
        reclaimed.would_free.is_partial(),
    );
    match would {
        Some(s) => lines.push(s),
        None => {},
    }
    assert(lines_are(lines@, body + freed_part + would_part)) by {
        assert(forall|k: int| 0 <= k < mid.len() ==> #[trigger] lines@[k] == mid[k]);
    }
    lines
}

/// Whether some outcome of a run is a failure (the process then exits with
/// a non-zero code).
pub fn any_failed(outcomes: &[DeleteOutcome]) -> (r: bool)
    ensures
        r == exists|i: int| 0 <= i < outcomes@.len() && #[trigger] outcomes@[i].action
            == DeleteAction::Failed,
{
    let mut i: usize = 0;
    while i < outcomes.len()
        invariant
            i <= outcomes@.len(),
            forall|k: int| 0 <= k < i ==> #[trigger] outcomes@[k].action != DeleteAction::Failed,
        decreases outcomes@.len() - i,
    {
        if outcomes[i].action == DeleteAction::Failed {
            return true;
        }
        i = i + 1;
    }
    false
}

/// The `DELETE` column of a dry-run table marks exactly what a `--yes` run
/// with the default filter removes, for every worktree without local
/// changes (and for all of them with `--force`).
pub proof fn lemma_delete_column_is_the_yes_run(w: Worktree, force: bool)
    requires
        !w.dirty || force,
    ensures
        selectable(w) == removed_by_run(w, SelectionFilter::AllSelectable, force),
{
}

/// A `--yes` run never removes the main working tree, and never removes a
/// worktree with local changes without `--force`.
pub proof fn lemma_yes_run_is_safe(w: Worktree, filter: SelectionFilter, force: bool)
    requires
        removed_by_run(w, filter, force),
    ensures
        selectable(w),
        w.dirty ==> force,
{
}

/// The line printed instead of a report when a `--yes` run has nothing to
/// act on: `Some` exactly when no worktree matched the filter (nothing to
/// remove and nothing held back).
pub fn empty_plan_notice(to_delete: &[Worktree], skipped: &[Worktree]) -> (r: Option<&'static str>)
    ensures
        r is Some <==> (to_delete@.len() == 0 && skipped@.len() == 0),
        r matches Some(t) ==> t@ == "Nothing to delete."@,
{
    if to_delete.len() == 0 && skipped.len() == 0 {
        Some("Nothing to delete.")
    } else {
        None
    }
}

/// The line printed instead of a report when the interactive session ends
/// without having acted on anything (cancelled, or nothing was selected):
/// `Some` exactly when there are no results.
pub fn empty_session_notice(results: &[(Worktree, DeleteOutcome)]) -> (r: Option<&'static str>)
    ensures
        r is Some <==> results@.len() == 0,
        r matches Some(t) ==> t@ == "Nothing selected."@,
{
    if results.len() == 0 {
        Some("Nothing selected.")
    } else {
        None
    }
}

/// Whether `filter` admits a worktree of status `s`, written out.
pub open spec fn admitted_status(filter: SelectionFilter, s: WorktreeStatus) -> bool {
    match filter {
        SelectionFilter::AllSelectable => s != WorktreeStatus::MainRepo,
        SelectionFilter::OrphanedOnly => s == WorktreeStatus::Orphaned,
        SelectionFilter::OrphanedAndStale => s == WorktreeStatus::Orphaned || s
            == WorktreeStatus::Stale,
    }
}

/// A `--yes` run removes exactly the worktrees of a status the filter
/// takes that have no local changes (or all of them under `--force`), and
/// holds back exactly those of such a status that have local changes when
/// `--force` is not given. A worktree of a status the filter does not take
/// is in neither list; none is in both.
pub proof fn lemma_plan_by_status_and_changes(w: Worktree, filter: SelectionFilter, force: bool)
    ensures
        removed_by_run(w, filter, force) == (admitted_status(filter, w.status) && (force
            || !w.dirty)),
        held_back_by_run(w, filter, force) == (admitted_status(filter, w.status) && !force
            && w.dirty),
        !(removed_by_run(w, filter, force) && held_back_by_run(w, filter, force)),
{
}

proof fn lemma_filter_within(s: Seq<Worktree>, p: spec_fn(Worktree) -> bool)
    ensures
        forall|i: int| 0 <= i < s.filter(p).len() ==> s.contains(#[trigger] s.filter(p)[i]),
    decreases s.len(),
{
    reveal(Seq::filter);
    if s.len() > 0 {
        lemma_filter_within(s.drop_last(), p);
        let sub = s.drop_last().filter(p);
        assert forall|i: int| 0 <= i < s.filter(p).len() implies s.contains(
            #[trigger] s.filter(p)[i],
        ) by {
            if i < sub.len() {
                assert(s.filter(p)[i] == sub[i]);
                let k = choose|k: int| 0 <= k < s.drop_last().len() && s.drop_last()[k] == sub[i];
                assert(s[k] == sub[i]);
            } else {
                assert(s.filter(p)[i] == s.last());
                assert(s[s.len() - 1] == s.last());
            }
        }
    }
}

/// Over a whole scan: every worktree of the plan's two lists comes from the
/// scan and has a status the filter takes; a held-back one has local
/// changes and `--force` was not given; and every scanned worktree of a
/// status the filter takes is in one of the two lists. So both lists are
/// empty exactly when the filter takes no scanned worktree.
pub proof fn lemma_plan_covers_the_scan(ws: Seq<Worktree>, filter: SelectionFilter, force: bool)
    ensures
        ({
            let rem = ws.filter(|w: Worktree| removed_by_run(w, filter, force));
            let held = ws.filter(|w: Worktree| held_back_by_run(w, filter, force));
            &&& forall|i: int|
                0 <= i < rem.len() ==> ws.contains(#[trigger] rem[i]) && admitted_status(
                    filter,
                    rem[i].status,
                ) && (force || !rem[i].dirty)
            &&& forall|i: int|
                0 <= i < held.len() ==> ws.contains(#[trigger] held[i]) && admitted_status(
                    filter,
                    held[i].status,
                ) && held[i].dirty && !force
            &&& forall|i: int|
                0 <= i < ws.len() && admitted_status(filter, #[trigger] ws[i].status) ==> rem.contains(
                    ws[i],
                ) || held.contains(ws[i])
            &&& (rem.len() == 0 && held.len() == 0) <==> forall|i: int|
                0 <= i < ws.len() ==> !admitted_status(filter, #[trigger] ws[i].status)
        }),
{
    let pr = |w: Worktree| removed_by_run(w, filter, force);
    let ph = |w: Worktree| held_back_by_run(w, filter, force);
    broadcast use vstd::seq_lib::group_filter_ensures;

    lemma_filter_within(ws, pr);
    lemma_filter_within(ws, ph);
    let rem = ws.filter(pr);
    let held = ws.filter(ph);
    assert forall|i: int| 0 <= i < rem.len() implies admitted_status(filter, #[trigger] rem[i].status)
        && (force || !rem[i].dirty) by {
        assert(pr(rem[i]));
        lemma_plan_by_status_and_changes(rem[i], filter, force);
    }
    assert forall|i: int| 0 <= i < held.len() implies admitted_status(
        filter,
        #[trigger] held[i].status,
    ) && held[i].dirty && !force by {
        assert(ph(held[i]));
        lemma_plan_by_status_and_changes(held[i], filter, force);
    }
    assert forall|i: int|
        0 <= i < ws.len() && admitted_status(filter, #[trigger] ws[i].status) implies rem.contains(
        ws[i],
    ) || held.contains(ws[i]) by {
        lemma_plan_by_status_and_changes(ws[i], filter, force);
        if pr(ws[i]) {
            assert(rem.contains(ws[i]));
        } else {
            assert(ph(ws[i]));
            assert(held.contains(ws[i]));
        }
    }
    if rem.len() == 0 && held.len() == 0 {
        assert forall|i: int| 0 <= i < ws.len() implies !admitted_status(
            filter,
            #[trigger] ws[i].status,
        ) by {
            if admitted_status(filter, ws[i].status) {
                assert(rem.contains(ws[i]) || held.contains(ws[i]));
            }
        }
    }
    if forall|i: int| 0 <= i < ws.len() ==> !admitted_status(filter, #[trigger] ws[i].status) {
        if rem.len() > 0 {
            assert(ws.contains(rem[0]));
            let k = choose|k: int| 0 <= k < ws.len() && ws[k] == rem[0];
            assert(!admitted_status(filter, ws[k].status));
            assert(admitted_status(filter, rem[0].status));
        }
        if held.len() > 0 {
            assert(ws.contains(held[0]));
            let k = choose|k: int| 0 <= k < ws.len() && ws[k] == held[0];
            assert(!admitted_status(filter, ws[k].status));
            assert(admitted_status(filter, held[0].status));
        }
    }
}

} // verus!
