//! The interactive session's state: the live worktree list (kept in the
//! chosen sort order, by relevance unless the user re-sorts) with its cursor
//! and selection, scan and deletion progress, and the reaction to each key
//! press. Pure state transitions; the terminal, the background scan and the
//! background deletion are driven by the caller.

use vstd::prelude::*;

use crate::delete::{
    DeleteAction, DeleteEvent, DeleteOutcome, action_bytes, action_partial, lemma_action_partial_step,
    pending_actions_of,
};
use crate::scan::ScanEvent;
use crate::size::Amount;
use crate::score::{
    insert_index, insert_ranked, is_ranked, lemma_insert_index, lemma_insert_keeps_ranked, ranked,
    score_of,
};
use crate::selection::{selectable, is_selectable};
use crate::sorting::{
    SortOrder, default_order, is_sorted, lemma_default_order_is_ranking, lemma_insert_keeps_sorted,
    lemma_position, next_column, place, position_in,
};
use crate::text::str_eq;
use crate::worktree::{Worktree, WorktreeStatus};

verus! {

/// The worktrees of `items` whose flag in `sel` is set, in list order.
pub open spec fn chosen(items: Seq<Worktree>, sel: Seq<bool>) -> Seq<Worktree>
    decreases items.len(),
{
    if items.len() == 0 || sel.len() == 0 {
        Seq::empty()
    } else {
        let rest = chosen(items.drop_last(), sel.drop_last());
        if sel.last() {
            rest.push(items.last())
        } else {
            rest
        }
    }
}

/// Total known size of the worktrees whose flag in `sel` is set; a size not
/// yet known counts as zero.
pub open spec fn selected_total(items: Seq<Worktree>, sel: Seq<bool>) -> nat
    decreases items.len(),
{
    if items.len() == 0 || sel.len() == 0 {
        0
    } else {
        selected_total(items.drop_last(), sel.drop_last()) + if sel.last() {
            match items.last().size_bytes {
                Some(b) => b as nat,
                None => 0,
            }
        } else {
            0
        }
    }
}

/// Whether every selectable row is selected.
pub open spec fn all_selectable_selected(items: Seq<Worktree>, sel: Seq<bool>) -> bool {
    forall|i: int| 0 <= i < items.len() && selectable(items[i]) ==> #[trigger] sel[i]
}

/// Whether `j` is the first index of `items` whose path is `p`.
pub open spec fn first_with_path(items: Seq<Worktree>, p: Seq<char>, j: int) -> bool {
    &&& 0 <= j < items.len()
    &&& items[j].path@ == p
    &&& forall|k: int| 0 <= k < j ==> #[trigger] items[k].path@ != p
}

/// Whether no item of `items` has path `p`.
pub open spec fn no_path(items: Seq<Worktree>, p: Seq<char>) -> bool {
    forall|k: int| 0 <= k < items.len() ==> #[trigger] items[k].path@ != p
}

/// `w` with its size recorded as `bytes`.
pub open spec fn with_size(w: Worktree, bytes: u64) -> Worktree {
    Worktree { size_bytes: Some(bytes), ..w }
}

/// `items` with the size of the first item at path `p` (if any) set to `bytes`.
pub open spec fn sized(items: Seq<Worktree>, p: Seq<char>, bytes: u64, r: Seq<Worktree>) -> bool {
    ||| (no_path(items, p) && r == items)
    ||| exists|j: int|
        first_with_path(items, p, j) && r == items.update(j, with_size(items[j], bytes))
}

/// The index of the first item of `items` at path `p`.
fn find_path(items: &Vec<Worktree>, p: &str) -> (r: Option<usize>)
    ensures
        match r {
            Some(j) => first_with_path(items@, p@, j as int),
            None => no_path(items@, p@),
        },
{
    let mut i: usize = 0;
    while i < items.len()
        invariant
            i <= items.len(),
            forall|k: int| 0 <= k < i ==> #[trigger] items@[k].path@ != p@,
        decreases items.len() - i,
    {
        if str_eq(items[i].path.as_str(), p) {
            return Some(i);
        }
        i = i + 1;
    }
    None
}

/// Record the computed size for the first worktree at `path`, if any.
fn set_size(items: &mut Vec<Worktree>, path: &str, bytes: u64)
    ensures
        sized(old(items)@, path@, bytes, final(items)@),
{
    match find_path(items, path) {
        Some(j) => {
            let mut w = items[j].clone();
            w.size_bytes = Some(bytes);
            items.set(j, w);
            assert(first_with_path(old(items)@, path@, j as int));
        },
        None => {},
    }
}

proof fn lemma_chosen_insert_unselected(items: Seq<Worktree>, sel: Seq<bool>, k: int, w: Worktree)
    requires
        items.len() == sel.len(),
        0 <= k <= items.len(),
    ensures
        chosen(items.insert(k, w), sel.insert(k, false)) == chosen(items, sel),
    decreases items.len(),
{
    let items2 = items.insert(k, w);
    let sel2 = sel.insert(k, false);
    if k == items.len() {
        assert(items2.drop_last() =~= items);
        assert(sel2.drop_last() =~= sel);
    } else {
        assert(items2.drop_last() =~= items.drop_last().insert(k, w));
        assert(sel2.drop_last() =~= sel.drop_last().insert(k, false));
        lemma_chosen_insert_unselected(items.drop_last(), sel.drop_last(), k, w);
    }
}

/// `b` is `a` after moving the cursor one row down.
pub open spec fn moved_down(a: Selector, b: Selector) -> bool {
    &&& b.sort_order() == a.sort_order()
    &&& b.rows() == a.rows()
    &&& b.flags() == a.flags()
    &&& b.touched()
    &&& b.at() == if a.at() + 1 < a.rows().len() {
        a.at() + 1
    } else {
        a.at()
    }
}

/// `b` is `a` after moving the cursor one row up.
pub open spec fn moved_up(a: Selector, b: Selector) -> bool {
    &&& b.sort_order() == a.sort_order()
    &&& b.rows() == a.rows()
    &&& b.flags() == a.flags()
    &&& b.touched()
    &&& b.at() == if a.at() > 0 {
        (a.at() - 1) as nat
    } else {
        0
    }
}

/// `b` is `a` after toggling the row under the cursor.
pub open spec fn toggled(a: Selector, b: Selector) -> bool {
    &&& b.sort_order() == a.sort_order()
    &&& b.rows() == a.rows()
    &&& b.at() == a.at()
    &&& b.touched()
    &&& b.flags() == if a.at() < a.rows().len() && selectable(a.rows()[a.at() as int]) {
        a.flags().update(a.at() as int, !a.flags()[a.at() as int])
    } else {
        a.flags()
    }
}

/// `b` is `a` after toggling every selectable row: all of them become
/// selected, unless they all were, in which case none is.
pub open spec fn toggled_all(a: Selector, b: Selector) -> bool {
    &&& b.sort_order() == a.sort_order()
    &&& b.rows() == a.rows()
    &&& b.at() == a.at()
    &&& b.touched() == a.touched()
    &&& b.flags() == Seq::new(
        a.rows().len(),
        |i: int| selectable(a.rows()[i]) && !all_selectable_selected(a.rows(), a.flags()),
    )
}

/// `b` is `a` after inserting `wt` at its position in `a`'s order as of `now`,
/// unselected; the cursor follows its row once the user has moved it, and
/// stays on the top row before that.
pub open spec fn inserted(a: Selector, wt: Worktree, now: i64, b: Selector) -> bool {
    let k = position_in(a.rows(), wt, a.sort_order(), now);
    &&& b.sort_order() == a.sort_order()
    &&& b.rows() == a.rows().insert(k as int, wt)
    &&& b.flags() == a.flags().insert(k as int, false)
    &&& b.touched() == a.touched()
    &&& b.at() == if !a.touched() {
        0
    } else if a.rows().len() > 0 && k <= a.at() {
        a.at() + 1
    } else {
        a.at()
    }
}

/// `b` is `a` after recording `bytes` as the size of the first row at `p`.
pub open spec fn resized(a: Selector, p: Seq<char>, bytes: u64, b: Selector) -> bool {
    &&& b.sort_order() == a.sort_order()
    &&& sized(a.rows(), p, bytes, b.rows())
    &&& b.flags() == a.flags()
    &&& b.at() == a.at()
    &&& b.touched() == a.touched()
}

/// The rows and flags of `rows` / `flags` re-sorted in order `o` as of
/// `now`, each flag travelling with its row: every pair inserted in turn at
/// its position (so ties keep their previous order).
pub open spec fn sorted_pairs(rows: Seq<Worktree>, flags: Seq<bool>, o: SortOrder, now: i64) -> (
    Seq<Worktree>,
    Seq<bool>,
)
    decreases rows.len(),
{
    if rows.len() == 0 || flags.len() == 0 {
        (Seq::empty(), Seq::empty())
    } else {
        let (r, f) = sorted_pairs(rows.drop_last(), flags.drop_last(), o, now);
        let k = position_in(r, rows.last(), o, now) as int;
        (r.insert(k, rows.last()), f.insert(k, flags.last()))
    }
}

proof fn lemma_chosen_insert(items: Seq<Worktree>, sel: Seq<bool>, k: int, w: Worktree, b: bool)
    requires
        items.len() == sel.len(),
        0 <= k <= items.len(),
    ensures
        chosen(items.insert(k, w), sel.insert(k, b)).to_multiset() == if b {
            chosen(items, sel).to_multiset().insert(w)
        } else {
            chosen(items, sel).to_multiset()
        },
    decreases items.len(),
{
    broadcast use vstd::seq_lib::group_to_multiset_ensures;

    let items2 = items.insert(k, w);
    let sel2 = sel.insert(k, b);
    if k == items.len() {
        assert(items2.drop_last() =~= items);
        assert(sel2.drop_last() =~= sel);
        assert(items2.last() == w);
        assert(sel2.last() == b);
    } else {
        assert(items2.drop_last() =~= items.drop_last().insert(k, w));
        assert(sel2.drop_last() =~= sel.drop_last().insert(k, b));
        assert(items2.last() == items.last());
        assert(sel2.last() == sel.last());
        lemma_chosen_insert(items.drop_last(), sel.drop_last(), k, w, b);
        let m = chosen(items.drop_last(), sel.drop_last()).to_multiset();
        if b && sel.last() {
            assert(m.insert(w).insert(items.last()) =~= m.insert(items.last()).insert(w));
        }
    }
}

/// Re-sorting keeps every row with its flag: the result is sorted, holds
/// the same rows, selects the same worktrees, and only selectable rows stay
/// selected.
pub proof fn lemma_sorted_pairs(rows: Seq<Worktree>, flags: Seq<bool>, o: SortOrder, now: i64)
    requires
        rows.len() == flags.len(),
    ensures
        sorted_pairs(rows, flags, o, now).0.len() == rows.len(),
        sorted_pairs(rows, flags, o, now).1.len() == rows.len(),
        is_sorted(sorted_pairs(rows, flags, o, now).0, o, now),
        sorted_pairs(rows, flags, o, now).0.to_multiset() == rows.to_multiset(),
        chosen(sorted_pairs(rows, flags, o, now).0, sorted_pairs(rows, flags, o, now).1).to_multiset()
            == chosen(rows, flags).to_multiset(),
        (forall|i: int| 0 <= i < rows.len() && #[trigger] flags[i] ==> selectable(rows[i])) ==> (
        forall|i: int|
            0 <= i < rows.len() && #[trigger] sorted_pairs(rows, flags, o, now).1[i] ==> selectable(
                sorted_pairs(rows, flags, o, now).0[i],
            )),
    decreases rows.len(),
{
    broadcast use vstd::seq_lib::group_to_multiset_ensures;

    if rows.len() > 0 {
        let (dr, df) = (rows.drop_last(), flags.drop_last());
        lemma_sorted_pairs(dr, df, o, now);
        let (r, f) = sorted_pairs(dr, df, o, now);
        let w = rows.last();
        let b = flags.last();
        let k = position_in(r, w, o, now) as int;
        lemma_position(r, w, o, now);
        lemma_insert_keeps_sorted(r, w, o, now);
        lemma_chosen_insert(r, f, k, w, b);
        assert(rows =~= dr.push(w));
        assert(b == flags[rows.len() - 1]);
        if forall|i: int| 0 <= i < rows.len() && #[trigger] flags[i] ==> selectable(rows[i]) {
            assert forall|i: int| 0 <= i < dr.len() && #[trigger] df[i] implies selectable(dr[i]) by {
                assert(df[i] == flags[i] && dr[i] == rows[i]);
            }
            let (r2, f2) = (r.insert(k, w), f.insert(k, b));
            assert forall|i: int| 0 <= i < rows.len() && #[trigger] f2[i] implies selectable(r2[i]) by {
                if i < k {
                    assert(f2[i] == f[i] && r2[i] == r[i]);
                } else if i > k {
                    assert(f2[i] == f[i - 1] && r2[i] == r[i - 1]);
                }
            }
        }
    }
}

/// `b` is `a` re-sorted in order `o` as of `now`: each flag travels with
/// its row, and the cursor goes back to the top.
pub open spec fn resorted(a: Selector, o: SortOrder, now: i64, b: Selector) -> bool {
    &&& b.rows() == sorted_pairs(a.rows(), a.flags(), o, now).0
    &&& b.flags() == sorted_pairs(a.rows(), a.flags(), o, now).1
    &&& b.sort_order() == o
    &&& b.at() == 0
    &&& b.touched() == a.touched()
}

/// The order after `s`: the next column, in its natural direction.
pub open spec fn cycled_order(o: SortOrder) -> SortOrder {
    SortOrder { column: next_column(o.column), reversed: false }
}

/// The order after `S`: the same column, the other direction.
pub open spec fn reversed_order(o: SortOrder) -> SortOrder {
    SortOrder { column: o.column, reversed: !o.reversed }
}

/// Interactive selection state over a list of worktrees.
pub struct Selector {
    items: Vec<Worktree>,
    cursor: usize,
    /// Whether the user has ever moved or acted on the cursor. Until then the
    /// cursor stays pinned to the top of the list as worktrees are inserted.
    cursor_touched: bool,
    selected: Vec<bool>,
    /// The order the rows are kept in.
    order: SortOrder,
}

impl Selector {
    /// The rows, in display order.
    pub closed spec fn rows(&self) -> Seq<Worktree> {
        self.items@
    }

    /// The selection flag of each row.
    pub closed spec fn flags(&self) -> Seq<bool> {
        self.selected@
    }

    /// The cursor position.
    pub closed spec fn at(&self) -> nat {
        self.cursor as nat
    }

    /// Whether the user has moved or acted on the cursor yet.
    pub closed spec fn touched(&self) -> bool {
        self.cursor_touched
    }

    /// The order the rows are kept in.
    pub closed spec fn sort_order(&self) -> SortOrder {
        self.order
    }

    /// One flag per row; the cursor is on a row (or 0 for an empty list);
    /// only selectable rows are ever selected.
    pub open spec fn wf(&self) -> bool {
        &&& self.rows().len() == self.flags().len()
        &&& (self.at() < self.rows().len() || self.at() == 0)
        &&& forall|i: int| 0 <= i < self.rows().len() && #[trigger] self.flags()[i] ==> selectable(self.rows()[i])
    }

    /// The worktrees currently selected, in display order.
    pub open spec fn chosen_rows(&self) -> Seq<Worktree> {
        chosen(self.rows(), self.flags())
    }

    /// A selector over `items` (kept in the order given), cursor at the
    /// top, nothing selected; worktrees found later are ranked by relevance.
    pub fn new(items: Vec<Worktree>) -> (r: Self)
        ensures
            r.wf(),
            r.rows() == items@,
            r.flags() == Seq::new(items@.len(), |i: int| false),
            r.at() == 0,
            !r.touched(),
            r.sort_order() == default_order(),
    {
        let mut selected: Vec<bool> = Vec::new();
        let mut i: usize = 0;
        while i < items.len()
            invariant
                i <= items.len(),
                selected@ == Seq::new(i as nat, |j: int| false),
            decreases items.len() - i,
        {
            selected.push(false);
            i = i + 1;
            assert(selected@ =~= Seq::new(i as nat, |j: int| false));
        }
        Selector {
            items,
            cursor: 0,
            cursor_touched: false,
            selected,
            order: SortOrder::by_relevance(),
        }
    }

    /// The rows, in display order.
    pub fn items(&self) -> (r: &[Worktree])
        ensures
            r@ == self.rows(),
    {
        self.items.as_slice()
    }

    /// The cursor position.
    pub fn cursor(&self) -> (r: usize)
        ensures
            r == self.at(),
    {
        self.cursor
    }

    /// The order the rows are kept in.
    pub fn order(&self) -> (r: SortOrder)
        ensures
            r == self.sort_order(),
    {
        self.order
    }

    /// Whether row `i` is selected.
    pub fn is_selected(&self, i: usize) -> (r: bool)
        requires
            self.wf(),
            i < self.rows().len(),
        ensures
            r == self.flags()[i as int],
    {
        self.selected[i]
    }

    /// Move the cursor one row down, stopping at the last row.
    pub fn move_down(&mut self)
        requires
            old(self).wf(),
        ensures
            final(self).wf(),
            moved_down(*old(self), *final(self)),
    {
        assert(self.cursor < self.items@.len() || self.cursor == 0);
        self.cursor_touched = true;
        if self.cursor < self.items.len() && self.cursor + 1 < self.items.len() {
            self.cursor = self.cursor + 1;
        }
    }

    /// Move the cursor one row up, stopping at the top.
    pub fn move_up(&mut self)
        requires
            old(self).wf(),
        ensures
            final(self).wf(),
            moved_up(*old(self), *final(self)),
    {
        self.cursor_touched = true;
        self.cursor = self.cursor.saturating_sub(1);
    }

    /// Whether row `i` may be selected (the main working tree never can).
    pub fn selectable(&self, i: usize) -> (r: bool)
        requires
            self.wf(),
            i < self.rows().len(),
        ensures
            r == selectable(self.rows()[i as int]),
    {
        is_selectable(&self.items[i])
    }

    /// Flip the selection of the row under the cursor, if there is one and
    /// it is selectable.
    pub fn toggle(&mut self)
        requires
            old(self).wf(),
        ensures
            final(self).wf(),
            toggled(*old(self), *final(self)),
    {
        self.cursor_touched = true;
        let i = self.cursor;
        if i >= self.items.len() {
            return ;
        }
        if self.selectable(i) {
            let v = !self.selected[i];
            self.selected.set(i, v);
        }
    }

    /// Select every selectable row, or clear the selection if every
    /// selectable row is already selected.
    pub fn toggle_all(&mut self)
        requires
            old(self).wf(),
        ensures
            final(self).wf(),
            toggled_all(*old(self), *final(self)),
    {
        let n = self.items.len();
        let mut all = true;
        let mut i: usize = 0;
        while i < n
            invariant
                n == self.items@.len(),
                n == self.selected@.len(),
                i <= n,
                all == forall|k: int|
                    0 <= k < i && selectable(self.items@[k]) ==> #[trigger] self.selected@[k],
            decreases n - i,
        {
            if is_selectable(&self.items[i]) && !self.selected[i] {
                all = false;
            }
            i = i + 1;
        }
        let ghost target = Seq::new(n as nat, |k: int| selectable(self.items@[k]) && !all);
        let mut fresh: Vec<bool> = Vec::new();
        let mut j: usize = 0;
        while j < n
            invariant
                n == self.items@.len(),
                j <= n,
                target == Seq::new(n as nat, |k: int| selectable(self.items@[k]) && !all),
                fresh@ == target.subrange(0, j as int),
            decreases n - j,
        {
            let v = is_selectable(&self.items[j]) && !all;
            fresh.push(v);
            j = j + 1;
            assert(fresh@ =~= target.subrange(0, j as int));
        }
        assert(fresh@ =~= target);
        self.selected = fresh;
    }

    /// Total known size of the selected worktrees, when it fits in a `u64`;
    /// sizes not yet computed count as zero.
    pub fn selected_size_checked(&self) -> (r: Option<u64>)
        requires
            self.wf(),
        ensures
            match r {
                Some(t) => t == selected_total(self.rows(), self.flags()),
                None => selected_total(self.rows(), self.flags()) > u64::MAX,
            },
    {
        let n = self.items.len();
        let mut total: u64 = 0;
        let mut i: usize = 0;
        while i < n
            invariant
                n == self.items@.len(),
                n == self.selected@.len(),
                i <= n,
                total == selected_total(self.items@.subrange(0, i as int), self.selected@.subrange(0, i as int)),
            decreases n - i,
        {
            proof {
                assert(self.items@.subrange(0, i + 1).drop_last() =~= self.items@.subrange(0, i as int));
                assert(self.selected@.subrange(0, i + 1).drop_last() =~= self.selected@.subrange(0, i as int));
            }
            if self.selected[i] {
                let b: u64 = match self.items[i].size_bytes {
                    Some(b) => b,
                    None => 0,
                };
                if total > u64::MAX - b {
                    proof {
                        lemma_selected_total_monotone(self.items@, self.selected@, (i + 1) as nat);
                    }
                    return None;
                }
                total = total + b;
            }
            i = i + 1;
        }
        assert(self.items@.subrange(0, n as int) =~= self.items@);
        assert(self.selected@.subrange(0, n as int) =~= self.selected@);
        Some(total)
    }

    /// Total on-disk size of the selected worktrees, in bytes; sizes not yet
    /// computed count as zero.
    pub fn selected_size(&self) -> (r: u64)
        requires
            self.wf(),
            selected_total(self.rows(), self.flags()) <= u64::MAX,
        ensures
            r == selected_total(self.rows(), self.flags()),
    {
        match self.selected_size_checked() {
            Some(t) => t,
            None => 0,
        }
    }

    /// Consume the selector, returning the worktrees the user chose.
    pub fn selected_worktrees(self) -> (r: Vec<Worktree>)
        requires
            self.wf(),
        ensures
            r@ == self.chosen_rows(),
    {
        self.selected_worktrees_snapshot()
    }

    /// Copy out the worktrees the user chose, leaving the selector as it is.
    pub fn selected_worktrees_snapshot(&self) -> (r: Vec<Worktree>)
        requires
            self.wf(),
        ensures
            r@ == self.chosen_rows(),
    {
        let n = self.items.len();
        let mut out: Vec<Worktree> = Vec::new();
        let mut i: usize = 0;
        while i < n
            invariant
                n == self.items@.len(),
                n == self.selected@.len(),
                i <= n,
                out@ == chosen(self.items@.subrange(0, i as int), self.selected@.subrange(0, i as int)),
            decreases n - i,
        {
            proof {
                assert(self.items@.subrange(0, i + 1).drop_last() =~= self.items@.subrange(0, i as int));
                assert(self.selected@.subrange(0, i + 1).drop_last() =~= self.selected@.subrange(0, i as int));
            }
            if self.selected[i] {
                out.push(self.items[i].clone());
            }
            i = i + 1;
        }
        assert(self.items@.subrange(0, n as int) =~= self.items@);
        assert(self.selected@.subrange(0, n as int) =~= self.selected@);
        out
    }

    /// Insert a newly discovered worktree at its position in the list's order
    /// as of `now` (after every row that may come before it), unselected. The
    /// selection stays attached to the same worktrees, and so does the cursor
    /// once the user has moved it; before that it stays on the top row.
    pub fn insert_found(&mut self, wt: Worktree, now: i64)
        requires
            old(self).wf(),
        ensures
            final(self).wf(),
            inserted(*old(self), wt, now, *final(self)),
            final(self).chosen_rows() == old(self).chosen_rows(),
            old(self).touched() && old(self).rows().len() > 0 ==> final(self).rows()[final(self).at() as int]
                == old(self).rows()[old(self).at() as int],
            is_sorted(old(self).rows(), old(self).sort_order(), now) ==> is_sorted(
                final(self).rows(),
                final(self).sort_order(),
                now,
            ),
    {
        let had_items = self.items.len() > 0;
        let idx = place(&self.items, &wt, self.order, now);
        proof {
            lemma_position(self.items@, wt, self.order, now);
            lemma_chosen_insert_unselected(self.items@, self.selected@, idx as int, wt);
            if is_sorted(self.items@, self.order, now) {
                lemma_insert_keeps_sorted(self.items@, wt, self.order, now);
            }
        }
        let ghost old_items = self.items@;
        let ghost old_sel = self.selected@;
        self.items.insert(idx, wt);
        self.selected.insert(idx, false);
        assert forall|i: int| 0 <= i < self.items@.len() && #[trigger] self.selected@[i] implies selectable(self.items@[i]) by {
            if i < idx {
                assert(self.selected@[i] == old_sel[i]);
                assert(self.items@[i] == old_items[i]);
            } else if i > idx {
                assert(self.selected@[i] == old_sel[i - 1]);
                assert(self.items@[i] == old_items[i - 1]);
            }
        }
        if self.cursor_touched {
            if had_items && idx <= self.cursor {
                self.cursor = self.cursor + 1;
            }
        } else {
            self.cursor = 0;
        }
    }

    /// Record the computed size for the worktree at `path`, if it is still
    /// listed; a no-op otherwise.
    pub fn update_size(&mut self, path: &str, bytes: u64)
        requires
            old(self).wf(),
        ensures
            final(self).wf(),
            resized(*old(self), path@, bytes, *final(self)),
    {
        set_size(&mut self.items, path, bytes);
        assert(forall|i: int| 0 <= i < self.items@.len() ==> #[trigger] self.items@[i].status == old(self).items@[i].status);
    }

    /// Re-sort the rows in order `o` as of `now` (see [`resorted`]); the
    /// selection stays with the same worktrees.
    pub fn resort(&mut self, o: SortOrder, now: i64)
        requires
            old(self).wf(),
        ensures
            final(self).wf(),
            resorted(*old(self), o, now, *final(self)),
            is_sorted(final(self).rows(), o, now),
            final(self).rows().to_multiset() == old(self).rows().to_multiset(),
            final(self).chosen_rows().to_multiset() == old(self).chosen_rows().to_multiset(),
    {
        let n = self.items.len();
        let mut rows: Vec<Worktree> = Vec::new();
        let mut flags: Vec<bool> = Vec::new();
        let mut i: usize = 0;
        while i < n
            invariant
                n == self.items@.len(),
                n == self.selected@.len(),
                i <= n,
                (rows@, flags@) == sorted_pairs(
                    self.items@.subrange(0, i as int),
                    self.selected@.subrange(0, i as int),
                    o,
                    now,
                ),
                rows@.len() == i,
                flags@.len() == i,
            decreases n - i,
        {
            proof {
                lemma_sorted_pairs(
                    self.items@.subrange(0, i as int),
                    self.selected@.subrange(0, i as int),
                    o,
                    now,
                );
                lemma_position(rows@, self.items@[i as int], o, now);
                assert(self.items@.subrange(0, i + 1).drop_last() =~= self.items@.subrange(
                    0,
                    i as int,
                ));
                assert(self.selected@.subrange(0, i + 1).drop_last() =~= self.selected@.subrange(
                    0,
                    i as int,
                ));
            }
            let w = self.items[i].clone();
            let k = place(&rows, &w, o, now);
            rows.insert(k, w);
            flags.insert(k, self.selected[i]);
            i = i + 1;
        }
        proof {
            assert(self.items@.subrange(0, n as int) =~= self.items@);
            assert(self.selected@.subrange(0, n as int) =~= self.selected@);
            lemma_sorted_pairs(self.items@, self.selected@, o, now);
        }
        self.items = rows;
        self.selected = flags;
        self.order = o;
        self.cursor = 0;
    }

    /// Sort by the next column, in its natural direction (`s`), ranking as
    /// of `now`.
    pub fn cycle_sort_at(&mut self, now: i64)
        requires
            old(self).wf(),
        ensures
            final(self).wf(),
            resorted(*old(self), cycled_order(old(self).sort_order()), now, *final(self)),
    {
        let o = SortOrder { column: self.order.column.next(), reversed: false };
        self.resort(o, now);
    }

    /// Reverse the direction of the current sort (`S`), ranking as of `now`.
    pub fn reverse_sort_at(&mut self, now: i64)
        requires
            old(self).wf(),
        ensures
            final(self).wf(),
            resorted(*old(self), reversed_order(old(self).sort_order()), now, *final(self)),
    {
        let o = SortOrder { column: self.order.column, reversed: !self.order.reversed };
        self.resort(o, now);
    }
}

proof fn lemma_selected_total_monotone(items: Seq<Worktree>, sel: Seq<bool>, n: nat)
    requires
        n <= items.len(),
        items.len() == sel.len(),
    ensures
        selected_total(items.subrange(0, n as int), sel.subrange(0, n as int)) <= selected_total(items, sel),
    decreases items.len() - n,
{
    if n < items.len() {
        lemma_selected_total_monotone(items, sel, n + 1);
        assert(items.subrange(0, (n + 1) as int).drop_last() =~= items.subrange(0, n as int));
        assert(sel.subrange(0, (n + 1) as int).drop_last() =~= sel.subrange(0, n as int));
    } else {
        assert(items.subrange(0, n as int) =~= items);
        assert(sel.subrange(0, n as int) =~= sel);
    }
}

/// Which screen the interactive session is showing.
#[derive(Debug, Clone, Copy, PartialEq, Eq, Structural)]
pub enum Phase {
    /// The list is shown (the scan may still be running); the user moves,
    /// selects, confirms or quits.
    Browsing,
    /// The selection holds worktrees with local changes; they are listed and
    /// an explicit `enter` is awaited before anything is removed.
    Confirming,
    /// The chosen worktrees are being removed in the background.
    Deleting,
    /// Deletion has finished; the summary is shown.
    Done,
}

/// A key press, as far as the session tells keys apart.
#[derive(Debug, Clone, Copy, PartialEq, Eq, Structural)]
pub enum Key {
    Char(char),
    Enter,
    Esc,
    Up,
    Down,
    /// The hard-abort combination.
    CtrlC,
    Other,
}

/// What the event loop does after a key press.
#[derive(Debug)]
pub enum LoopAction {
    /// Keep going.
    Continue,
    /// Start removing `chosen` in the background with these settings.
    StartDeletion { chosen: Vec<Worktree>, dry_run: bool, force: bool },
    /// Leave without deleting anything.
    Cancel,
    /// Leave and report the deletion results.
    Finish,
    /// Restore the terminal and exit at once.
    Abort,
}

/// Whether `key` cancels (`q` or `esc`).
pub open spec fn quit_key(key: Key) -> bool {
    key == Key::Char('q') || key == Key::Esc
}

/// Whether `key` moves the cursor down (`↓` or `j`).
pub open spec fn down_key(key: Key) -> bool {
    key == Key::Down || key == Key::Char('j')
}

/// Whether `key` moves the cursor up (`↑` or `k`).
pub open spec fn up_key(key: Key) -> bool {
    key == Key::Up || key == Key::Char('k')
}

/// Whether `key` toggles the row under the cursor (`space` or `x`).
pub open spec fn toggle_key(key: Key) -> bool {
    key == Key::Char(' ') || key == Key::Char('x')
}

/// Whether some worktree of `s` has local changes.
pub open spec fn has_dirty(s: Seq<Worktree>) -> bool {
    exists|i: int| 0 <= i < s.len() && #[trigger] s[i].dirty
}

/// The worktrees of `s` that have local changes, in order.
pub open spec fn dirty_only(s: Seq<Worktree>) -> Seq<Worktree>
    decreases s.len(),
{
    if s.len() == 0 {
        Seq::empty()
    } else {
        let rest = dirty_only(s.drop_last());
        if s.last().dirty {
            rest.push(s.last())
        } else {
            rest
        }
    }
}

/// Each worktree paired with its outcome, dropping those with none.
pub open spec fn paired(items: Seq<Worktree>, outcomes: Seq<Option<DeleteOutcome>>) -> Seq<
    (Worktree, DeleteOutcome),
>
    decreases items.len(),
{
    if items.len() == 0 || outcomes.len() == 0 {
        Seq::empty()
    } else {
        let rest = paired(items.drop_last(), outcomes.drop_last());
        match outcomes.last() {
            Some(o) => rest.push((items.last(), o)),
            None => rest,
        }
    }
}

/// `r` is `outcomes` with `o` recorded in the slot of the first worktree
/// of `items` at `o`'s path; unchanged when no worktree is there.
pub open spec fn recorded(
    items: Seq<Worktree>,
    outcomes: Seq<Option<DeleteOutcome>>,
    o: DeleteOutcome,
    r: Seq<Option<DeleteOutcome>>,
) -> bool {
    ||| (no_path(items, o.path@) && r == outcomes)
    ||| exists|j: int| first_with_path(items, o.path@, j) && r == outcomes.update(j, Some(o))
}

/// The full state of an interactive session: the live worktree list and
/// the progress of the scan and of the deletion.
pub struct AppState {
    pub selector: Selector,
    /// Whether the directory walk has finished.
    pub scan_done: bool,
    /// The directory the walk is visiting now (only the latest matters).
    pub current_scan_path: Option<String>,
    pub phase: Phase,
    pub dry_run: bool,
    pub force: bool,
    /// The worktree being removed now.
    pub deleting_path: Option<String>,
    /// The worktrees chosen for deletion, as they were at confirmation
    /// (sizes still patched as they arrive); paired by position with
    /// `deletion_outcomes`.
    pub deletion_items: Vec<Worktree>,
    /// Each chosen worktree's outcome, `None` until it arrives.
    pub deletion_outcomes: Vec<Option<DeleteOutcome>>,
}

/// `b` is `a` after the scan event `event`, a found worktree being ranked
/// as of `now`: the latest visited directory is remembered; a found
/// worktree is inserted in the list; a size reaches both the list and the
/// deletion snapshot; the end of the walk is recorded.
pub open spec fn scan_applied(a: AppState, event: ScanEvent, now: i64, b: AppState) -> bool {
    match event {
        ScanEvent::Progress(p) => b == (AppState { current_scan_path: Some(p), ..a }),
        ScanEvent::Found(wt) => {
            &&& inserted(a.selector, wt, now, b.selector)
            &&& b == (AppState { selector: b.selector, ..a })
        },
        ScanEvent::Size(p, bytes) => {
            &&& resized(a.selector, p@, bytes, b.selector)
            &&& sized(a.deletion_items@, p@, bytes, b.deletion_items@)
            &&& b == (AppState { selector: b.selector, deletion_items: b.deletion_items, ..a })
        },
        ScanEvent::Done => b == (AppState { scan_done: true, current_scan_path: None, ..a }),
    }
}

/// `b` is `a` after the current selection was taken for deletion: the
/// chosen worktrees are snapshotted, none has an outcome yet, and the
/// session is deleting.
pub open spec fn started(a: AppState, b: AppState) -> bool {
    &&& b.deletion_items@ == a.selector.chosen_rows()
    &&& b.deletion_outcomes@ == Seq::new(
        a.selector.chosen_rows().len(),
        |i: int| None::<DeleteOutcome>,
    )
    &&& b == (AppState {
        deletion_items: b.deletion_items,
        deletion_outcomes: b.deletion_outcomes,
        phase: Phase::Deleting,
        ..a
    })
}

/// `enter` on a selection: nothing selected cancels; otherwise deletion
/// starts (`force` says whether git may remove worktrees with local
/// changes).
pub open spec fn deletion_requested(a: AppState, b: AppState, r: LoopAction, force: bool) -> bool {
    if a.selector.chosen_rows().len() == 0 {
        r is Cancel && b == a
    } else {
        &&& started(a, b)
        &&& r matches LoopAction::StartDeletion { chosen, dry_run, force: f }
        &&& chosen@ == a.selector.chosen_rows()
        &&& dry_run == a.dry_run
        &&& f == force
    }
}

/// How the session reacts to `key` at time `now` (which ranks rows when
/// they are re-sorted): from `a` it moves to `b` and tells the loop `r`.
pub open spec fn key_handled(a: AppState, key: Key, now: i64, b: AppState, r: LoopAction) -> bool {
    if key == Key::CtrlC {
        r is Abort && b == a
    } else {
        match a.phase {
            Phase::Browsing => if quit_key(key) {
                r is Cancel && b == a
            } else if key == Key::Enter {
                if a.selector.chosen_rows().len() > 0 && a.needs_confirmation() {
                    r is Continue && b == (AppState { phase: Phase::Confirming, ..a })
                } else {
                    deletion_requested(a, b, r, a.force)
                }
            } else if down_key(key) {
                r is Continue && moved_down(a.selector, b.selector) && b == (AppState {
                    selector: b.selector,
                    ..a
                })
            } else if up_key(key) {
                r is Continue && moved_up(a.selector, b.selector) && b == (AppState {
                    selector: b.selector,
                    ..a
                })
            } else if toggle_key(key) {
                r is Continue && toggled(a.selector, b.selector) && b == (AppState {
                    selector: b.selector,
                    ..a
                })
            } else if key == Key::Char('a') {
                r is Continue && toggled_all(a.selector, b.selector) && b == (AppState {
                    selector: b.selector,
                    ..a
                })
            } else if key == Key::Char('s') {
                r is Continue && resorted(
                    a.selector,
                    cycled_order(a.selector.sort_order()),
                    now,
                    b.selector,
                ) && b == (AppState { selector: b.selector, ..a })
            } else if key == Key::Char('S') {
                r is Continue && resorted(
                    a.selector,
                    reversed_order(a.selector.sort_order()),
                    now,
                    b.selector,
                ) && b == (AppState { selector: b.selector, ..a })
            } else {
                r is Continue && b == a
            },
            Phase::Confirming => if key == Key::Enter {
                deletion_requested(a, b, r, true)
            } else if quit_key(key) {
                r is Continue && b == (AppState { phase: Phase::Browsing, ..a })
            } else {
                r is Continue && b == a
            },
            Phase::Deleting => r is Continue && b == a,
            Phase::Done => if key == Key::Enter || quit_key(key) {
                r is Finish && b == a
            } else {
                r is Continue && b == a
            },
        }
    }
}

/// Whether some worktree of `items` has local changes.
fn any_dirty(items: &Vec<Worktree>) -> (r: bool)
    ensures
        r == has_dirty(items@),
{
    let mut i: usize = 0;
    while i < items.len()
        invariant
            i <= items.len(),
            forall|k: int| 0 <= k < i ==> !#[trigger] items@[k].dirty,
        decreases items.len() - i,
    {
        if items[i].dirty {
            return true;
        }
        i = i + 1;
    }
    false
}

impl AppState {
    /// One selection flag per row, one outcome slot per chosen worktree.
    pub open spec fn wf(&self) -> bool {
        &&& self.selector.wf()
        &&& self.deletion_items@.len() == self.deletion_outcomes@.len()
    }

    /// Whether confirming the selection must first ask again: it holds
    /// worktrees with local changes, and neither a dry run nor `--force`
    /// already settles it.
    pub open spec fn needs_confirmation(&self) -> bool {
        !self.dry_run && !self.force && has_dirty(self.selector.chosen_rows())
    }

    /// A fresh session: empty list, scan running, browsing.
    pub fn new(dry_run: bool, force: bool) -> (r: Self)
        ensures
            r.wf(),
            r.selector.rows().len() == 0,
            r.selector.at() == 0,
            !r.selector.touched(),
            r.selector.sort_order() == default_order(),
            !r.scan_done,
            r.current_scan_path is None,
            r.phase == Phase::Browsing,
            r.dry_run == dry_run,
            r.force == force,
            r.deleting_path is None,
            r.deletion_items@.len() == 0,
            r.deletion_outcomes@.len() == 0,
    {
        AppState {
            selector: Selector::new(Vec::new()),
            scan_done: false,
            current_scan_path: None,
            phase: Phase::Browsing,
            dry_run,
            force,
            deleting_path: None,
            deletion_items: Vec::new(),
            deletion_outcomes: Vec::new(),
        }
    }

    /// Apply one scan event, ranking a found worktree as of `now`. A size
    /// also reaches the deletion snapshot, so totals are corrected when it
    /// arrives after confirmation.
    pub fn apply_scan_event(&mut self, event: ScanEvent, now: i64)
        requires
            old(self).wf(),
        ensures
            final(self).wf(),
            scan_applied(*old(self), event, now, *final(self)),
    {
        match event {
            ScanEvent::Progress(p) => {
                self.current_scan_path = Some(p);
            },
            ScanEvent::Found(wt) => {
                self.selector.insert_found(wt, now);
            },
            ScanEvent::Size(p, bytes) => {
                self.selector.update_size(p.as_str(), bytes);
                set_size(&mut self.deletion_items, p.as_str(), bytes);
            },
            ScanEvent::Done => {
                self.scan_done = true;
                self.current_scan_path = None;
            },
        }
    }

    /// Take the current selection for deletion. With nothing selected,
    /// returns `None` and changes nothing.
    pub fn begin_deletion(&mut self) -> (r: Option<Vec<Worktree>>)
        requires
            old(self).wf(),
        ensures
            final(self).wf(),
            old(self).selector.chosen_rows().len() == 0 ==> r is None && *final(self) == *old(
                self,
            ),
            old(self).selector.chosen_rows().len() > 0 ==> (r matches Some(c) && c@ == old(
                self,
            ).selector.chosen_rows() && started(*old(self), *final(self))),
    {
        let chosen = self.selector.selected_worktrees_snapshot();
        if chosen.len() == 0 {
            return None;
        }
        let snapshot = self.selector.selected_worktrees_snapshot();
        let mut outcomes: Vec<Option<DeleteOutcome>> = Vec::new();
        let mut i: usize = 0;
        while i < chosen.len()
            invariant
                i <= chosen@.len(),
                outcomes@ == Seq::new(i as nat, |k: int| None::<DeleteOutcome>),
            decreases chosen@.len() - i,
        {
            outcomes.push(None);
            i = i + 1;
            assert(outcomes@ =~= Seq::new(i as nat, |k: int| None::<DeleteOutcome>));
        }
        self.deletion_outcomes = outcomes;
        self.deletion_items = snapshot;
        self.phase = Phase::Deleting;
        Some(chosen)
    }

    /// Apply one deletion event. An outcome lands in the slot of the first
    /// chosen worktree at its path, whatever order outcomes arrive in.
    pub fn apply_delete_event(&mut self, event: DeleteEvent)
        requires
            old(self).wf(),
        ensures
            final(self).wf(),
            match event {
                DeleteEvent::Deleting(p) => *final(self) == (AppState {
                    deleting_path: Some(p),
                    ..*old(self)
                }),
                DeleteEvent::Deleted(o) => {
                    &&& recorded(
                        old(self).deletion_items@,
                        old(self).deletion_outcomes@,
                        o,
                        final(self).deletion_outcomes@,
                    )
                    &&& *final(self) == (AppState {
                        deletion_outcomes: final(self).deletion_outcomes,
                        ..*old(self)
                    })
                },
                DeleteEvent::Done => *final(self) == (AppState {
                    phase: Phase::Done,
                    deleting_path: None,
                    ..*old(self)
                }),
            },
    {
        match event {
            DeleteEvent::Deleting(p) => {
                self.deleting_path = Some(p);
            },
            DeleteEvent::Deleted(o) => {
                match find_path(&self.deletion_items, o.path.as_str()) {
                    Some(j) => {
                        let ghost o2 = o;
                        self.deletion_outcomes.set(j, Some(o));
                        assert(first_with_path(self.deletion_items@, o2.path@, j as int));
                    },
                    None => {},
                }
            },
            DeleteEvent::Done => {
                self.phase = Phase::Done;
                self.deleting_path = None;
            },
        }
    }

    /// Each worktree chosen for deletion paired with its outcome; one whose
    /// outcome never arrived (the run was aborted) is left out.
    pub fn into_results(self) -> (r: Vec<(Worktree, DeleteOutcome)>)
        requires
            self.wf(),
        ensures
            r@ == paired(self.deletion_items@, self.deletion_outcomes@),
    {
        let n = self.deletion_items.len();
        let mut out: Vec<(Worktree, DeleteOutcome)> = Vec::new();
        let mut i: usize = 0;
        while i < n
            invariant
                n == self.deletion_items@.len(),
                n == self.deletion_outcomes@.len(),
                i <= n,
                out@ == paired(
                    self.deletion_items@.subrange(0, i as int),
                    self.deletion_outcomes@.subrange(0, i as int),
                ),
            decreases n - i,
        {
            proof {
                assert(self.deletion_items@.subrange(0, i + 1).drop_last()
                    =~= self.deletion_items@.subrange(0, i as int));
                assert(self.deletion_outcomes@.subrange(0, i + 1).drop_last()
                    =~= self.deletion_outcomes@.subrange(0, i as int));
            }
            match &self.deletion_outcomes[i] {
                Some(o) => {
                    out.push((self.deletion_items[i].clone(), o.clone()));
                },
                None => {},
            }
            i = i + 1;
        }
        assert(self.deletion_items@.subrange(0, n as int) =~= self.deletion_items@);
        assert(self.deletion_outcomes@.subrange(0, n as int) =~= self.deletion_outcomes@);
        out
    }

    /// The chosen worktrees with local changes, listed while confirmation
    /// is awaited.
    pub fn dirty_selection(&self) -> (r: Vec<Worktree>)
        requires
            self.wf(),
        ensures
            r@ == dirty_only(self.selector.chosen_rows()),
    {
        let chosen = self.selector.selected_worktrees_snapshot();
        let mut out: Vec<Worktree> = Vec::new();
        let mut i: usize = 0;
        while i < chosen.len()
            invariant
                i <= chosen@.len(),
                out@ == dirty_only(chosen@.subrange(0, i as int)),
            decreases chosen@.len() - i,
        {
            assert(chosen@.subrange(0, i + 1).drop_last() =~= chosen@.subrange(0, i as int));
            if chosen[i].dirty {
                out.push(chosen[i].clone());
            }
            i = i + 1;
        }
        assert(chosen@.subrange(0, chosen@.len() as int) =~= chosen@);
        out
    }

    /// `enter` on the selection: cancel when it is empty; otherwise take it
    /// for deletion.
    fn request_deletion(&mut self, force: bool) -> (r: LoopAction)
        requires
            old(self).wf(),
        ensures
            final(self).wf(),
            deletion_requested(*old(self), *final(self), r, force),
    {
        let dry_run = self.dry_run;
        match self.begin_deletion() {
            Some(chosen) => LoopAction::StartDeletion { chosen, dry_run, force },
            None => LoopAction::Cancel,
        }
    }

    /// React to one key press at time `now` and tell the event loop what
    /// to do next (see [`key_handled`]). `ctrl-c` aborts in every phase;
    /// while deleting it is the only way out. In the list, `enter` on a
    /// selection that holds worktrees with local changes first asks again
    /// (unless this is a dry run or `--force` was given), and a second
    /// `enter` removes them forcibly.
    pub fn handle_key(&mut self, key: Key, now: i64) -> (r: LoopAction)
        requires
            old(self).wf(),
        ensures
            final(self).wf(),
            key_handled(*old(self), key, now, *final(self), r),
    {
        if key == Key::CtrlC {
            return LoopAction::Abort;
        }
        match self.phase {
            Phase::Browsing => {
                if key == Key::Char('q') || key == Key::Esc {
                    LoopAction::Cancel
                } else if key == Key::Enter {
                    if !self.dry_run && !self.force {
                        let chosen = self.selector.selected_worktrees_snapshot();
                        if chosen.len() > 0 && any_dirty(&chosen) {
                            self.phase = Phase::Confirming;
                            return LoopAction::Continue;
                        }
                    }
                    let force = self.force;
                    self.request_deletion(force)
                } else if key == Key::Down || key == Key::Char('j') {
                    self.selector.move_down();
                    LoopAction::Continue
                } else if key == Key::Up || key == Key::Char('k') {
                    self.selector.move_up();
                    LoopAction::Continue
                } else if key == Key::Char(' ') || key == Key::Char('x') {
                    self.selector.toggle();
                    LoopAction::Continue
                } else if key == Key::Char('a') {
                    self.selector.toggle_all();
                    LoopAction::Continue
                } else if key == Key::Char('s') {
                    self.selector.cycle_sort_at(now);
                    LoopAction::Continue
                } else if key == Key::Char('S') {
                    self.selector.reverse_sort_at(now);
                    LoopAction::Continue
                } else {
                    LoopAction::Continue
                }
            },
            Phase::Confirming => {
                if key == Key::Enter {
                    self.request_deletion(true)
                } else if key == Key::Char('q') || key == Key::Esc {
                    self.phase = Phase::Browsing;
                    LoopAction::Continue
                } else {
                    LoopAction::Continue
                }
            },
            Phase::Deleting => LoopAction::Continue,
            Phase::Done => {
                if key == Key::Enter || key == Key::Char('q') || key == Key::Esc {
                    LoopAction::Finish
                } else {
                    LoopAction::Continue
                }
            },
        }
    }

}

/// Bytes freed by removed worktrees and bytes a dry run would free, each
/// with a flag set when some contributing worktree's size was not known
/// yet. Worktrees and outcomes are paired by position; a worktree with no
/// outcome yet counts for nothing. Totals saturate at `u64::MAX`.
pub fn totals(items: &[Worktree], outcomes: &[Option<DeleteOutcome>]) -> (r: (
    (u64, bool),
    (u64, bool),
))
    ensures
        ({
            let n = if items@.len() < outcomes@.len() {
                items@.len()
            } else {
                outcomes@.len()
            };
            let acts = pending_actions_of(outcomes@);
            &&& r.0.0 == action_bytes(items@, acts, DeleteAction::Removed, n)
            &&& r.0.1 == action_partial(items@, acts, DeleteAction::Removed, n)
            &&& r.1.0 == action_bytes(items@, acts, DeleteAction::DryRun, n)
            &&& r.1.1 == action_partial(items@, acts, DeleteAction::DryRun, n)
        }),
{
    let n = if items.len() < outcomes.len() {
        items.len()
    } else {
        outcomes.len()
    };
    let ghost acts = pending_actions_of(outcomes@);
    let mut freed = Amount::new(0, false);
    let mut would_free = Amount::new(0, false);
    let mut i: usize = 0;
    while i < n
        invariant
            i <= n,
            n <= items@.len(),
            n <= outcomes@.len(),
            acts == pending_actions_of(outcomes@),
            freed.known() == action_bytes(items@, acts, DeleteAction::Removed, i as nat),
            freed.is_partial() == action_partial(items@, acts, DeleteAction::Removed, i as nat),
            would_free.known() == action_bytes(items@, acts, DeleteAction::DryRun, i as nat),
            would_free.is_partial() == action_partial(items@, acts, DeleteAction::DryRun, i as nat),
        decreases n - i,
    {
        match &outcomes[i] {
            Some(o) => {
                assert(acts[i as int] == Some(o.action));
                if o.action == DeleteAction::Removed {
                    freed.add(items[i].size_bytes);
                } else if o.action == DeleteAction::DryRun {
                    would_free.add(items[i].size_bytes);
                }
            },
            None => {
                assert(acts[i as int] == None::<DeleteAction>);
            },
        }
        proof {
            lemma_action_partial_step(items@, acts, i as nat);
        }
        i = i + 1;
    }
    ((freed.known_bytes(), freed.partial()), (would_free.known_bytes(), would_free.partial()))
}

proof fn lemma_chosen_selectable(items: Seq<Worktree>, sel: Seq<bool>)
    requires
        items.len() == sel.len(),
        forall|i: int| 0 <= i < items.len() && #[trigger] sel[i] ==> selectable(items[i]),
    ensures
        forall|i: int|
            0 <= i < chosen(items, sel).len() ==> selectable(#[trigger] chosen(items, sel)[i]),
    decreases items.len(),
{
    if items.len() > 0 {
        let (pi, ps) = (items.drop_last(), sel.drop_last());
        assert forall|i: int| 0 <= i < pi.len() && #[trigger] ps[i] implies selectable(pi[i]) by {
            assert(ps[i] == sel[i] && pi[i] == items[i]);
        }
        lemma_chosen_selectable(pi, ps);
        let rest = chosen(pi, ps);
        assert(sel.last() == sel[sel.len() - 1]);
        assert forall|i: int|
            0 <= i < chosen(items, sel).len() implies selectable(
            #[trigger] chosen(items, sel)[i],
        ) by {
            if i < rest.len() {
                assert(chosen(items, sel)[i] == rest[i]);
            } else {
                assert(chosen(items, sel)[i] == items.last());
            }
        }
    }
}

/// The main working tree is never among the selected worktrees.
pub proof fn lemma_main_repo_never_chosen(sel: Selector)
    requires
        sel.wf(),
    ensures
        forall|i: int|
            0 <= i < sel.chosen_rows().len() ==> (#[trigger] sel.chosen_rows()[i]).status
                != WorktreeStatus::MainRepo,
{
    lemma_chosen_selectable(sel.rows(), sel.flags());
}

/// Toggling the same row twice restores the selection.
pub proof fn lemma_toggle_twice_restores(a: Selector, b: Selector, c: Selector)
    requires
        a.wf(),
        toggled(a, b),
        toggled(b, c),
    ensures
        c.flags() == a.flags(),
        c.rows() == a.rows(),
        c.at() == a.at(),
{
    if a.at() < a.rows().len() && selectable(a.rows()[a.at() as int]) {
        assert(c.flags() =~= a.flags());
    }
}

/// In the default order, the list shown while the scan streams in is the
/// ranking of everything found so far: inserting each found worktree as it
/// arrives gives the same order as ranking them all at once.
pub proof fn lemma_streamed_rows_are_ranked(
    a: Selector,
    found: Seq<Worktree>,
    wt: Worktree,
    now: i64,
    b: Selector,
)
    requires
        a.sort_order() == default_order(),
        a.rows() == ranked(found, now),
        inserted(a, wt, now, b),
    ensures
        b.rows() == ranked(found.push(wt), now),
{
    lemma_default_order_is_ranking(a.rows(), wt, now);
    assert(found.push(wt).drop_last() =~= found);
    assert(b.rows() == insert_ranked(a.rows(), wt, now));
}

/// Only what the user ticked is ever handed over for deletion, never the
/// main working tree; a cancelled session deletes nothing.
pub proof fn lemma_only_ticked_rows_are_deleted(
    a: AppState,
    key: Key,
    now: i64,
    b: AppState,
    r: LoopAction,
)
    requires
        a.wf(),
        key_handled(a, key, now, b, r),
    ensures
        r matches LoopAction::StartDeletion { chosen, .. } ==> {
            &&& chosen@ == a.selector.chosen_rows()
            &&& forall|i: int|
                0 <= i < chosen@.len() ==> (#[trigger] chosen@[i]).status
                    != WorktreeStatus::MainRepo
        },
        r is Cancel ==> b == a,
{
    lemma_main_repo_never_chosen(a.selector);
}

/// Confirming a selection that holds worktrees with local changes never
/// starts deleting at once (unless this is a dry run or `--force` was
/// given): the session asks again first.
pub proof fn lemma_local_changes_are_confirmed_first(
    a: AppState,
    now: i64,
    b: AppState,
    r: LoopAction,
)
    requires
        a.phase == Phase::Browsing,
        !a.dry_run,
        !a.force,
        has_dirty(a.selector.chosen_rows()),
        key_handled(a, Key::Enter, now, b, r),
    ensures
        r is Continue,
        b.phase == Phase::Confirming,
        b.deletion_items == a.deletion_items,
{
}

/// Sorting by relevance is exactly the ranking of the rows as they stand
/// (ties keep their current order).
pub proof fn lemma_relevance_sort_is_ranking(rows: Seq<Worktree>, flags: Seq<bool>, now: i64)
    requires
        rows.len() == flags.len(),
    ensures
        sorted_pairs(rows, flags, default_order(), now).0 == ranked(rows, now),
    decreases rows.len(),
{
    if rows.len() > 0 {
        lemma_relevance_sort_is_ranking(rows.drop_last(), flags.drop_last(), now);
        let (r, f) = sorted_pairs(rows.drop_last(), flags.drop_last(), default_order(), now);
        lemma_default_order_is_ranking(r, rows.last(), now);
    }
}

/// In the default order, inserting a found worktree is rank insertion: it
/// lands right after every row that ranks at least as high (so after every
/// row of equal score) and before the first row that ranks lower, unselected;
/// a ranked list stays ranked and gains exactly that worktree.
pub proof fn lemma_insert_found_in_default_order(a: Selector, wt: Worktree, now: i64, b: Selector)
    requires
        a.wf(),
        a.sort_order() == default_order(),
        inserted(a, wt, now, b),
    ensures
        ({
            let k = insert_index(a.rows(), wt, now);
            &&& k <= a.rows().len()
            &&& b.rows() == a.rows().insert(k as int, wt)
            &&& b.flags() == a.flags().insert(k as int, false)
            &&& forall|i: int| 0 <= i < k ==> #[trigger] score_of(a.rows()[i], now) >= score_of(wt, now)
            &&& k < a.rows().len() ==> score_of(a.rows()[k as int], now) < score_of(wt, now)
        }),
        b.rows().to_multiset() == a.rows().to_multiset().insert(wt),
        is_ranked(a.rows(), now) ==> is_ranked(b.rows(), now),
{
    broadcast use vstd::seq_lib::group_to_multiset_ensures;

    lemma_default_order_is_ranking(a.rows(), wt, now);
    lemma_insert_index(a.rows(), wt, now);
    if is_ranked(a.rows(), now) {
        lemma_insert_keeps_ranked(a.rows(), wt, now);
    }
}

} // verus!
