//! The orders the worktree list can be sorted in: by relevance (the
//! default, best candidate first), age (oldest first), size (largest
//! first), branch or path (alphabetically), each of which can be reversed.
//! Rows that tie keep their order, so sorting is stable.

use vstd::prelude::*;

use crate::noninteractive::{branch_label, branch_text};
use crate::score::{insert_index, is_ranked, relevance, score_of};
use crate::worktree::{Worktree, label_time};

verus! {

/// A column the list can be sorted by.
#[derive(Debug, Clone, Copy, PartialEq, Eq, Structural)]
pub enum SortColumn {
    /// Best deletion candidate first.
    Relevance,
    /// Oldest activity first; unknown ages last.
    Age,
    /// Largest first; sizes still being computed last.
    Size,
    /// Branch column, alphabetically.
    Branch,
    /// Path, alphabetically.
    Path,
}

/// A sort column and whether its order is reversed.
#[derive(Debug, Clone, Copy, PartialEq, Eq, Structural)]
pub struct SortOrder {
    pub column: SortColumn,
    pub reversed: bool,
}

/// The column after `c` when cycling through them.
pub open spec fn next_column(c: SortColumn) -> SortColumn {
    match c {
        SortColumn::Relevance => SortColumn::Age,
        SortColumn::Age => SortColumn::Size,
        SortColumn::Size => SortColumn::Branch,
        SortColumn::Branch => SortColumn::Path,
        SortColumn::Path => SortColumn::Relevance,
    }
}

/// Pressing `s` five times comes back to the same column.
pub proof fn lemma_cycling_comes_back(c: SortColumn)
    ensures
        next_column(next_column(next_column(next_column(next_column(c))))) == c,
{
}

/// The order the list starts in: by relevance, best candidate first.
pub open spec fn default_order() -> SortOrder {
    SortOrder { column: SortColumn::Relevance, reversed: false }
}

impl SortColumn {
    /// The column after this one when cycling through them.
    pub fn next(self) -> (r: SortColumn)
        ensures
            r == next_column(self),
    {
        match self {
            SortColumn::Relevance => SortColumn::Age,
            SortColumn::Age => SortColumn::Size,
            SortColumn::Size => SortColumn::Branch,
            SortColumn::Branch => SortColumn::Path,
            SortColumn::Path => SortColumn::Relevance,
        }
    }

    /// The column's name as shown to the user.
    pub fn name(self) -> (r: &'static str)
        ensures
            r@ == column_name(self),
    {
        match self {
            SortColumn::Relevance => "relevance",
            SortColumn::Age => "age",
            SortColumn::Size => "size",
            SortColumn::Branch => "branch",
            SortColumn::Path => "path",
        }
    }
}

/// The column's name as shown to the user.
pub open spec fn column_name(c: SortColumn) -> Seq<char> {
    match c {
        SortColumn::Relevance => "relevance"@,
        SortColumn::Age => "age"@,
        SortColumn::Size => "size"@,
        SortColumn::Branch => "branch"@,
        SortColumn::Path => "path"@,
    }
}

impl SortOrder {
    /// The order the list starts in (see [`default_order`]).
    pub fn by_relevance() -> (r: SortOrder)
        ensures
            r == default_order(),
    {
        SortOrder { column: SortColumn::Relevance, reversed: false }
    }
}

/// Whether `a` comes no later than `b` in lexicographic order of code
/// points (the order of `str`'s comparison).
pub open spec fn lex_le(a: Seq<char>, b: Seq<char>) -> bool
    decreases a.len(),
{
    if a.len() == 0 {
        true
    } else if b.len() == 0 {
        false
    } else if (a[0] as u32) < (b[0] as u32) {
        true
    } else if (a[0] as u32) > (b[0] as u32) {
        false
    } else {
        lex_le(a.drop_first(), b.drop_first())
    }
}

proof fn lemma_lex_total(a: Seq<char>, b: Seq<char>)
    ensures
        lex_le(a, b) || lex_le(b, a),
    decreases a.len(),
{
    if a.len() > 0 && b.len() > 0 && a[0] as u32 == b[0] as u32 {
        lemma_lex_total(a.drop_first(), b.drop_first());
    }
}

proof fn lemma_lex_trans(a: Seq<char>, b: Seq<char>, c: Seq<char>)
    requires
        lex_le(a, b),
        lex_le(b, c),
    ensures
        lex_le(a, c),
    decreases a.len(),
{
    if a.len() > 0 && b.len() > 0 && c.len() > 0 && a[0] as u32 == b[0] as u32 && b[0] as u32
        == c[0] as u32 {
        lemma_lex_trans(a.drop_first(), b.drop_first(), c.drop_first());
    }
}

/// The age key: the time of last activity shown in the age column,
/// unknown counting as later than any time.
pub open spec fn age_key(w: Worktree) -> int {
    match label_time(w) {
        Some(t) => t as int,
        None => i64::MAX + 1,
    }
}

/// The size key: the size, a size still being computed counting as less
/// than any size.
pub open spec fn size_key(w: Worktree) -> int {
    match w.size_bytes {
        Some(b) => b as int,
        None => -1,
    }
}

/// Whether `a` may come before `b` in the natural order of column `c`.
pub open spec fn natural_le(a: Worktree, b: Worktree, c: SortColumn, now: i64) -> bool {
    match c {
        SortColumn::Relevance => score_of(a, now) >= score_of(b, now),
        SortColumn::Age => age_key(a) <= age_key(b),
        SortColumn::Size => size_key(a) >= size_key(b),
        SortColumn::Branch => lex_le(branch_text(a), branch_text(b)),
        SortColumn::Path => lex_le(a.path@, b.path@),
    }
}

/// Whether `a` may come before `b` in order `o` as of `now`.
pub open spec fn goes_before(a: Worktree, b: Worktree, o: SortOrder, now: i64) -> bool {
    if o.reversed {
        natural_le(b, a, o.column, now)
    } else {
        natural_le(a, b, o.column, now)
    }
}

/// Any two worktrees are ordered one way or the other.
pub proof fn lemma_order_total(a: Worktree, b: Worktree, o: SortOrder, now: i64)
    ensures
        goes_before(a, b, o, now) || goes_before(b, a, o, now),
{
    match o.column {
        SortColumn::Branch => lemma_lex_total(branch_text(a), branch_text(b)),
        SortColumn::Path => lemma_lex_total(a.path@, b.path@),
        _ => {},
    }
}

/// The order is transitive.
pub proof fn lemma_order_trans(a: Worktree, b: Worktree, c: Worktree, o: SortOrder, now: i64)
    requires
        goes_before(a, b, o, now),
        goes_before(b, c, o, now),
    ensures
        goes_before(a, c, o, now),
{
    match o.column {
        SortColumn::Branch => if o.reversed {
            lemma_lex_trans(branch_text(c), branch_text(b), branch_text(a));
        } else {
            lemma_lex_trans(branch_text(a), branch_text(b), branch_text(c));
        },
        SortColumn::Path => if o.reversed {
            lemma_lex_trans(c.path@, b.path@, a.path@);
        } else {
            lemma_lex_trans(a.path@, b.path@, c.path@);
        },
        _ => {},
    }
}

/// Position at which `w` is inserted into `items` in order `o`: after every
/// leading item that may come before it (so ties keep the earlier item
/// first).
pub open spec fn position_in(items: Seq<Worktree>, w: Worktree, o: SortOrder, now: i64) -> nat
    decreases items.len(),
{
    if items.len() == 0 {
        0
    } else if goes_before(items[0], w, o, now) {
        1 + position_in(items.drop_first(), w, o, now)
    } else {
        0
    }
}

/// Whether `s` is sorted in order `o` as of `now`.
pub open spec fn is_sorted(s: Seq<Worktree>, o: SortOrder, now: i64) -> bool {
    forall|i: int, j: int| 0 <= i < j < s.len() ==> #[trigger] goes_before(s[i], s[j], o, now)
}

/// The insert position lies within the sequence, everything before it may
/// come before `w`, and the item at it (if any) may not.
pub proof fn lemma_position(items: Seq<Worktree>, w: Worktree, o: SortOrder, now: i64)
    ensures
        position_in(items, w, o, now) <= items.len(),
        forall|i: int|
            0 <= i < position_in(items, w, o, now) ==> goes_before(#[trigger] items[i], w, o, now),
        position_in(items, w, o, now) < items.len() ==> !goes_before(
            items[position_in(items, w, o, now) as int],
            w,
            o,
            now,
        ),
    decreases items.len(),
{
    if items.len() > 0 && goes_before(items[0], w, o, now) {
        let rest = items.drop_first();
        lemma_position(rest, w, o, now);
        assert forall|i: int| 0 <= i < position_in(items, w, o, now) implies goes_before(
            #[trigger] items[i],
            w,
            o,
            now,
        ) by {
            if i > 0 {
                assert(items[i] == rest[i - 1]);
            }
        }
        if position_in(items, w, o, now) < items.len() {
            assert(items[position_in(items, w, o, now) as int] == rest[position_in(rest, w, o, now)
                as int]);
        }
    }
}

/// Inserting at its position keeps a sorted sequence sorted.
pub proof fn lemma_insert_keeps_sorted(items: Seq<Worktree>, w: Worktree, o: SortOrder, now: i64)
    requires
        is_sorted(items, o, now),
    ensures
        is_sorted(items.insert(position_in(items, w, o, now) as int, w), o, now),
{
    lemma_position(items, w, o, now);
    let k = position_in(items, w, o, now) as int;
    let r = items.insert(k, w);
    if k < items.len() {
        lemma_order_total(items[k], w, o, now);
    }
    assert forall|i: int, j: int| 0 <= i < j < r.len() implies goes_before(r[i], r[j], o, now) by {
        if j < k {
            assert(r[i] == items[i] && r[j] == items[j]);
        } else if j == k {
            assert(r[j] == w && r[i] == items[i]);
        } else if i == k {
            assert(r[i] == w && r[j] == items[j - 1]);
            if j - 1 > k {
                assert(goes_before(items[k], items[j - 1], o, now));
                lemma_order_trans(w, items[k], items[j - 1], o, now);
            }
        } else if i < k {
            assert(r[i] == items[i] && r[j] == items[j - 1]);
        } else {
            assert(r[i] == items[i - 1] && r[j] == items[j - 1]);
        }
    }
}

/// In the default order, the insert position is the relevance rank
/// position and sortedness is being ranked.
pub proof fn lemma_default_order_is_ranking(items: Seq<Worktree>, w: Worktree, now: i64)
    ensures
        position_in(items, w, default_order(), now) == insert_index(items, w, now),
        is_sorted(items, default_order(), now) == is_ranked(items, now),
    decreases items.len(),
{
    if items.len() > 0 {
        lemma_default_order_is_ranking(items.drop_first(), w, now);
    }
    let d = default_order();
    if is_ranked(items, now) {
        assert forall|i: int, j: int| 0 <= i < j < items.len() implies #[trigger] goes_before(
            items[i],
            items[j],
            d,
            now,
        ) by {
            assert(score_of(items[i], now) >= score_of(items[j], now));
        }
    }
    if is_sorted(items, d, now) {
        assert forall|i: int, j: int| 0 <= i < j < items.len() implies #[trigger] score_of(
            items[i],
            now,
        ) >= #[trigger] score_of(items[j], now) by {
            assert(goes_before(items[i], items[j], d, now));
        }
    }
}

/// Whether `a` comes no later than `b` lexicographically.
pub fn str_le(a: &str, b: &str) -> (r: bool)
    ensures
        r == lex_le(a@, b@),
{
    let n = a.unicode_len();
    let m = b.unicode_len();
    let mut i: usize = 0;
    assert(a@.skip(0) =~= a@);
    assert(b@.skip(0) =~= b@);
    while i < n && i < m
        invariant
            n == a@.len(),
            m == b@.len(),
            i <= n,
            i <= m,
            lex_le(a@, b@) == lex_le(a@.skip(i as int), b@.skip(i as int)),
        decreases n - i,
    {
        let x = a.get_char(i);
        let y = b.get_char(i);
        let ghost (sa, sb) = (a@.skip(i as int), b@.skip(i as int));
        assert(sa[0] == x && sb[0] == y);
        if (x as u32) < (y as u32) {
            return true;
        }
        if (x as u32) > (y as u32) {
            return false;
        }
        assert(sa.drop_first() =~= a@.skip(i + 1));
        assert(sb.drop_first() =~= b@.skip(i + 1));
        i = i + 1;
    }
    i == n
}

/// Whether `a` may come before `b` in order `o` as of `now` (see
/// [`goes_before`]).
pub fn comes_before(a: &Worktree, b: &Worktree, o: SortOrder, now: i64) -> (r: bool)
    ensures
        r == goes_before(*a, *b, o, now),
{
    let (x, y) = if o.reversed {
        (b, a)
    } else {
        (a, b)
    };
    match o.column {
        SortColumn::Relevance => relevance(x, now).at_least(&relevance(y, now)),
        SortColumn::Age => {
            let tx = match x.last_commit {
                Some(t) => Some(t),
                None => x.last_modified,
            };
            let ty = match y.last_commit {
                Some(t) => Some(t),
                None => y.last_modified,
            };
            match (tx, ty) {
                (Some(p), Some(q)) => p <= q,
                (Some(_), None) => true,
                (None, Some(_)) => false,
                (None, None) => true,
            }
        },
        SortColumn::Size => match (x.size_bytes, y.size_bytes) {
            (Some(p), Some(q)) => p >= q,
            (Some(_), None) => true,
            (None, Some(_)) => false,
            (None, None) => true,
        },
        SortColumn::Branch => {
            let bx = branch_label(x);
            let by = branch_label(y);
            str_le(bx.as_str(), by.as_str())
        },
        SortColumn::Path => str_le(x.path.as_str(), y.path.as_str()),
    }
}

/// The index at which `w` belongs in `items` in order `o` (see
/// [`position_in`]).
pub fn place(items: &Vec<Worktree>, w: &Worktree, o: SortOrder, now: i64) -> (r: usize)
    ensures
        r == position_in(items@, *w, o, now),
{
    let mut i: usize = 0;
    assert(items@.subrange(0, items.len() as int) =~= items@);
    while i < items.len()
        invariant
            i <= items.len(),
            position_in(items@, *w, o, now) == i + position_in(
                items@.subrange(i as int, items.len() as int),
                *w,
                o,
                now,
            ),
        decreases items.len() - i,
    {
        let ghost rest = items@.subrange(i as int, items.len() as int);
        assert(rest[0] == items@[i as int]);
        assert(rest.drop_first() =~= items@.subrange(i + 1, items.len() as int));
        if !comes_before(&items[i], w, o, now) {
            return i;
        }
        i = i + 1;
    }
    i
}

} // verus!
