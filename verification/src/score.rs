//! Relevance ranking: how strong a deletion candidate a worktree is.
//!
//! The status tier (orphaned > stale > active) comes first; within a tier a
//! branch already merged into the default branch outranks an unmerged one,
//! and after that an older worktree outranks a newer one. The main working
//! tree is never a candidate and ranks below everything else.

use vstd::prelude::*;

use crate::worktree::{Worktree, WorktreeStatus};

verus! {

/// The age assumed for a worktree whose last activity is unknown: 30 days,
/// so that it neither dominates the ranking nor vanishes from it.
pub const UNKNOWN_AGE_SECS: u64 = 2_592_000;

/// A worktree's rank key. Compare keys with [`Relevance::outranks`] and
/// [`Relevance::at_least`]; the order is that of [`Relevance::score`].
#[derive(Debug, Clone, Copy, PartialEq, Eq, Structural)]
pub struct Relevance {
    /// 3 orphaned, 2 stale, 1 active, 0 main working tree.
    pub tier: u8,
    /// Whether the branch is merged into the default branch.
    pub merged: bool,
    /// Seconds since the last sign of activity.
    pub age: u64,
}

impl Relevance {
    /// The key's position in the ranking: the tier dominates, then merged,
    /// then age.
    pub open spec fn score(self) -> int {
        self.tier * 0x2_0000_0000_0000_0000int + (if self.merged {
            0x1_0000_0000_0000_0000int
        } else {
            0
        }) + self.age
    }

    /// The key of the main working tree, below every candidate.
    pub open spec fn never() -> Relevance {
        Relevance { tier: 0, merged: false, age: 0 }
    }

    /// The key of the main working tree, below every candidate.
    pub fn main_repo() -> (r: Relevance)
        ensures
            r == Relevance::never(),
    {
        Relevance { tier: 0, merged: false, age: 0 }
    }

    /// Whether `self` ranks strictly above `other`.
    pub fn outranks(&self, other: &Relevance) -> (r: bool)
        ensures
            r == (self.score() > other.score()),
    {
        if self.tier != other.tier {
            self.tier > other.tier
        } else if self.merged != other.merged {
            self.merged
        } else {
            self.age > other.age
        }
    }

    /// Whether `self` ranks at least as high as `other`.
    pub fn at_least(&self, other: &Relevance) -> (r: bool)
        ensures
            r == (self.score() >= other.score()),
    {
        !other.outranks(self)
    }
}

/// The most recent sign of life: the later of the last commit and the
/// filesystem modification time, when either is known.
pub open spec fn last_touched(w: Worktree) -> Option<i64> {
    match (w.last_commit, w.last_modified) {
        (Some(a), Some(b)) => Some(if a >= b { a } else { b }),
        (Some(a), None) => Some(a),
        (None, Some(b)) => Some(b),
        (None, None) => None,
    }
}

/// Seconds from `t` to `now`, never negative.
pub open spec fn elapsed(now: int, t: int) -> nat {
    if now - t <= 0 {
        0
    } else {
        (now - t) as nat
    }
}

/// The tier of a status.
pub open spec fn tier_of(s: WorktreeStatus) -> u8 {
    match s {
        WorktreeStatus::Orphaned => 3,
        WorktreeStatus::Stale => 2,
        WorktreeStatus::Active => 1,
        WorktreeStatus::MainRepo => 0,
    }
}

/// The rank key of `w` at time `now`.
pub open spec fn relevance_of(w: Worktree, now: i64) -> Relevance {
    if w.status == WorktreeStatus::MainRepo {
        Relevance::never()
    } else {
        Relevance {
            tier: tier_of(w.status),
            merged: w.merged,
            age: match last_touched(w) {
                Some(t) => elapsed(now as int, t as int) as u64,
                None => UNKNOWN_AGE_SECS,
            },
        }
    }
}

/// The score of `w` at time `now`.
pub open spec fn score_of(w: Worktree, now: i64) -> int {
    relevance_of(w, now).score()
}

/// The rank key of `wt` as of `now`.
pub fn relevance(wt: &Worktree, now: i64) -> (r: Relevance)
    ensures
        r == relevance_of(*wt, now),
{
    let tier: u8 = match wt.status {
        WorktreeStatus::MainRepo => return Relevance::main_repo(),
        WorktreeStatus::Orphaned => 3,
        WorktreeStatus::Stale => 2,
        WorktreeStatus::Active => 1,
    };
    let touched: Option<i64> = match (wt.last_commit, wt.last_modified) {
        (Some(a), Some(b)) => Some(if a >= b { a } else { b }),
        (Some(a), None) => Some(a),
        (None, Some(b)) => Some(b),
        (None, None) => None,
    };
    let age: u64 = match touched {
        Some(t) => {
            let d: i128 = now as i128 - t as i128;
            if d <= 0 {
                0
            } else {
                d as u64
            }
        },
        None => UNKNOWN_AGE_SECS,
    };
    Relevance { tier, merged: wt.merged, age }
}

/// Orphaned outranks stale, stale outranks active, active outranks the main
/// working tree, whatever the merged flags and ages.
pub proof fn lemma_tiers_dominate(a: Worktree, b: Worktree, now: i64)
    requires
        tier_of(a.status) > tier_of(b.status),
    ensures
        score_of(a, now) > score_of(b, now),
{
}

/// Within a status, a merged worktree outranks an unmerged one of any age.
pub proof fn lemma_merged_outranks_unmerged(a: Worktree, b: Worktree, now: i64)
    requires
        a.status == b.status,
        a.status != WorktreeStatus::MainRepo,
        a.merged,
        !b.merged,
    ensures
        score_of(a, now) > score_of(b, now),
{
}

/// Within a status and merged flag, the worktree whose last activity is
/// further in the past ranks higher (ages up to the present count as zero).
pub proof fn lemma_older_outranks_newer(a: Worktree, b: Worktree, now: i64, ta: i64, tb: i64)
    requires
        a.status == b.status,
        a.status != WorktreeStatus::MainRepo,
        a.merged == b.merged,
        last_touched(a) == Some(ta),
        last_touched(b) == Some(tb),
        ta < tb,
        tb < now,
    ensures
        score_of(a, now) > score_of(b, now),
{
}

/// The main working tree never ranks above a candidate, and all main working
/// trees rank equal.
pub proof fn lemma_main_repo_ranks_last(m: Worktree, w: Worktree, now: i64)
    requires
        m.status == WorktreeStatus::MainRepo,
    ensures
        w.status != WorktreeStatus::MainRepo ==> score_of(w, now) > score_of(m, now),
        w.status == WorktreeStatus::MainRepo ==> score_of(w, now) == score_of(m, now),
{
}

/// Position at which `w` is inserted into `items`: after every leading item
/// that ranks at least as high (so ties keep the earlier item on top).
pub open spec fn insert_index(items: Seq<Worktree>, w: Worktree, now: i64) -> nat
    decreases items.len(),
{
    if items.len() == 0 {
        0
    } else if score_of(items[0], now) >= score_of(w, now) {
        1 + insert_index(items.drop_first(), w, now)
    } else {
        0
    }
}

/// `items` with `w` inserted at its rank position.
pub open spec fn insert_ranked(items: Seq<Worktree>, w: Worktree, now: i64) -> Seq<Worktree> {
    items.insert(insert_index(items, w, now) as int, w)
}

/// The worktrees of `s`, ordered from best to worst deletion candidate as of
/// `now`, ties in the order given: each one inserted in turn at its
/// rank position.
pub open spec fn ranked(s: Seq<Worktree>, now: i64) -> Seq<Worktree>
    decreases s.len(),
{
    if s.len() == 0 {
        Seq::empty()
    } else {
        insert_ranked(ranked(s.drop_last(), now), s.last(), now)
    }
}

/// Whether `s` is ordered from best to worst candidate as of `now`.
pub open spec fn is_ranked(s: Seq<Worktree>, now: i64) -> bool {
    forall|i: int, j: int|
        0 <= i < j < s.len() ==> #[trigger] score_of(s[i], now) >= #[trigger] score_of(s[j], now)
}

/// The insert position lies within the sequence, everything before it ranks
/// at least as high as `w`, and the item at it (if any) ranks lower.
pub proof fn lemma_insert_index(items: Seq<Worktree>, w: Worktree, now: i64)
    ensures
        insert_index(items, w, now) <= items.len(),
        forall|i: int|
            0 <= i < insert_index(items, w, now) ==> #[trigger] score_of(items[i], now)
                >= score_of(w, now),
        insert_index(items, w, now) < items.len() ==> score_of(
            items[insert_index(items, w, now) as int],
            now,
        ) < score_of(w, now),
    decreases items.len(),
{
    if items.len() > 0 && score_of(items[0], now) >= score_of(w, now) {
        let rest = items.drop_first();
        lemma_insert_index(rest, w, now);
        assert forall|i: int| 0 <= i < insert_index(items, w, now) implies #[trigger] score_of(
            items[i],
            now,
        ) >= score_of(w, now) by {
            if i > 0 {
                assert(items[i] == rest[i - 1]);
            }
        }
        if insert_index(items, w, now) < items.len() {
            assert(items[insert_index(items, w, now) as int] == rest[insert_index(rest, w, now)
                as int]);
        }
    }
}

/// Inserting at the rank position keeps a ranked sequence ranked.
pub proof fn lemma_insert_keeps_ranked(items: Seq<Worktree>, w: Worktree, now: i64)
    requires
        is_ranked(items, now),
    ensures
        is_ranked(insert_ranked(items, w, now), now),
        insert_ranked(items, w, now).len() == items.len() + 1,
{
    lemma_insert_index(items, w, now);
    let k = insert_index(items, w, now) as int;
    let r = insert_ranked(items, w, now);
    assert forall|i: int, j: int| 0 <= i < j < r.len() implies #[trigger] score_of(r[i], now)
        >= #[trigger] score_of(r[j], now) by {
        if j < k {
            assert(r[i] == items[i] && r[j] == items[j]);
        } else if j == k {
            assert(r[j] == w && r[i] == items[i]);
        } else if i == k {
            assert(r[i] == w && r[j] == items[j - 1]);
            assert(score_of(items[k], now) >= score_of(items[j - 1], now));
        } else if i < k {
            assert(r[i] == items[i] && r[j] == items[j - 1]);
        } else {
            assert(r[i] == items[i - 1] && r[j] == items[j - 1]);
        }
    }
}

/// The ranking of any sequence is ordered from best to worst candidate and
/// holds exactly the same worktrees.
pub proof fn lemma_ranked_is_sorted_permutation(s: Seq<Worktree>, now: i64)
    ensures
        is_ranked(ranked(s, now), now),
        ranked(s, now).to_multiset() == s.to_multiset(),
    decreases s.len(),
{
    broadcast use vstd::seq_lib::group_to_multiset_ensures;
    if s.len() > 0 {
        let prev = ranked(s.drop_last(), now);
        lemma_ranked_is_sorted_permutation(s.drop_last(), now);
        lemma_insert_keeps_ranked(prev, s.last(), now);
        lemma_insert_index(prev, s.last(), now);
        let k = insert_index(prev, s.last(), now) as int;
        assert(prev.insert(k, s.last()).to_multiset() == prev.to_multiset().insert(s.last())) by {
            vstd::seq_lib::lemma_multiset_commutative(prev.subrange(0, k), seq![s.last()] + prev.subrange(k, prev.len() as int));
            assert(prev.insert(k, s.last()) =~= prev.subrange(0, k) + (seq![s.last()]
                + prev.subrange(k, prev.len() as int)));
            vstd::seq_lib::lemma_multiset_commutative(seq![s.last()], prev.subrange(k, prev.len() as int));
            vstd::seq_lib::lemma_multiset_commutative(prev.subrange(0, k), prev.subrange(k, prev.len() as int));
            assert(prev =~= prev.subrange(0, k) + prev.subrange(k, prev.len() as int));
        }
        assert(s =~= s.drop_last().push(s.last()));
    }
}

/// The worktrees of `s` whose score as of `now` is `c`, in order.
pub open spec fn with_score(s: Seq<Worktree>, c: int, now: i64) -> Seq<Worktree>
    decreases s.len(),
{
    if s.len() == 0 {
        Seq::empty()
    } else {
        let rest = with_score(s.drop_last(), c, now);
        if score_of(s.last(), now) == c {
            rest.push(s.last())
        } else {
            rest
        }
    }
}

proof fn lemma_with_score_concat(a: Seq<Worktree>, b: Seq<Worktree>, c: int, now: i64)
    ensures
        with_score(a + b, c, now) == with_score(a, c, now) + with_score(b, c, now),
    decreases b.len(),
{
    if b.len() == 0 {
        assert(a + b =~= a);
        assert(with_score(b, c, now) =~= Seq::<Worktree>::empty());
    } else {
        lemma_with_score_concat(a, b.drop_last(), c, now);
        assert((a + b).drop_last() =~= a + b.drop_last());
        assert((a + b).last() == b.last());
    }
}

proof fn lemma_with_score_none(s: Seq<Worktree>, c: int, now: i64)
    requires
        forall|i: int| 0 <= i < s.len() ==> #[trigger] score_of(s[i], now) != c,
    ensures
        with_score(s, c, now) == Seq::<Worktree>::empty(),
    decreases s.len(),
{
    if s.len() > 0 {
        lemma_with_score_none(s.drop_last(), c, now);
    }
}

/// Inserting `w` at its rank position into a ranked sequence appends it to
/// the worktrees of its own score.
proof fn lemma_with_score_insert(items: Seq<Worktree>, w: Worktree, c: int, now: i64)
    requires
        is_ranked(items, now),
    ensures
        with_score(insert_ranked(items, w, now), c, now) == if score_of(w, now) == c {
            with_score(items, c, now).push(w)
        } else {
            with_score(items, c, now)
        },
{
    lemma_insert_index(items, w, now);
    let k = insert_index(items, w, now) as int;
    let pre = items.subrange(0, k);
    let post = items.subrange(k, items.len() as int);
    assert(items =~= pre + post);
    assert(insert_ranked(items, w, now) =~= (pre + seq![w]) + post);
    lemma_with_score_concat(pre, post, c, now);
    lemma_with_score_concat(pre + seq![w], post, c, now);
    lemma_with_score_concat(pre, seq![w], c, now);
    let one = seq![w];
    assert(one.drop_last() =~= Seq::<Worktree>::empty());
    assert(one.last() == w);
    assert(with_score(one.drop_last(), c, now) == Seq::<Worktree>::empty());
    if score_of(w, now) == c {
        assert(with_score(one, c, now) =~= seq![w]);
        assert(with_score(pre, c, now) + seq![w] =~= with_score(pre, c, now).push(w));
        assert forall|i: int| 0 <= i < post.len() implies #[trigger] score_of(post[i], now) != c by {
            assert(post[i] == items[k + i]);
            if i > 0 {
                assert(score_of(items[k], now) >= score_of(items[k + i], now));
            }
        }
        lemma_with_score_none(post, c, now);
        assert(with_score(items, c, now) =~= with_score(pre, c, now));
        assert(with_score(insert_ranked(items, w, now), c, now) =~= with_score(pre, c, now).push(
            w,
        ));
    } else {
        assert(with_score(one, c, now) =~= Seq::<Worktree>::empty());
        assert(with_score(pre, c, now) + Seq::<Worktree>::empty() =~= with_score(pre, c, now));
        assert(with_score(insert_ranked(items, w, now), c, now) =~= with_score(pre, c, now)
            + with_score(post, c, now));
    }
}

/// Ranking is stable: among worktrees of equal score, the ranked order is
/// the order in which they came (so of two equally relevant worktrees, the
/// one found first stays on top).
pub proof fn lemma_ranking_is_stable(s: Seq<Worktree>, c: int, now: i64)
    ensures
        with_score(ranked(s, now), c, now) == with_score(s, c, now),
    decreases s.len(),
{
    if s.len() > 0 {
        lemma_ranking_is_stable(s.drop_last(), c, now);
        lemma_ranked_is_sorted_permutation(s.drop_last(), now);
        lemma_with_score_insert(ranked(s.drop_last(), now), s.last(), c, now);
    }
}

/// Rank `worktrees` from best to worst deletion candidate as of `now`; ties
/// keep the order given.
pub fn rank_at(worktrees: &Vec<Worktree>, now: i64) -> (r: Vec<Worktree>)
    ensures
        r@ == ranked(worktrees@, now),
{
    let mut out: Vec<Worktree> = Vec::new();
    let mut i: usize = 0;
    while i < worktrees.len()
        invariant
            i <= worktrees.len(),
            out@ == ranked(worktrees@.subrange(0, i as int), now),
        decreases worktrees.len() - i,
    {
        let w = worktrees[i].clone();
        let k = rank_position(&out, &w, now);
        proof {
            lemma_insert_index(out@, w, now);
        }
        out.insert(k, w);
        proof {
            let s = worktrees@.subrange(0, i + 1);
            assert(s.drop_last() =~= worktrees@.subrange(0, i as int));
        }
        i = i + 1;
    }
    assert(worktrees@.subrange(0, worktrees.len() as int) =~= worktrees@);
    out
}

/// The index at which `w` belongs in `items` (see [`insert_index`]).
pub fn rank_position(items: &Vec<Worktree>, w: &Worktree, now: i64) -> (r: usize)
    ensures
        r == insert_index(items@, *w, now),
{
    let key = relevance(w, now);
    let mut i: usize = 0;
    assert(items@.subrange(0, items.len() as int) =~= items@);
    while i < items.len()
        invariant
            i <= items.len(),
            key == relevance_of(*w, now),
            insert_index(items@, *w, now) == i + insert_index(
                items@.subrange(i as int, items.len() as int),
                *w,
                now,
            ),
        decreases items.len() - i,
    {
        let k = relevance(&items[i], now);
        let ghost rest = items@.subrange(i as int, items.len() as int);
        assert(rest[0] == items@[i as int]);
        assert(rest.drop_first() =~= items@.subrange(i + 1, items.len() as int));
        assert(rest.len() > 0);
        assert(k == relevance_of(rest[0], now));
        assert(key == relevance_of(*w, now));
        if !k.at_least(&key) {
            assert(insert_index(rest, *w, now) == 0);
            return i;
        }
        assert(insert_index(rest, *w, now) == 1 + insert_index(rest.drop_first(), *w, now));
        i = i + 1;
    }
    i
}

/// A candidate's rank key: its tier is 3 orphaned, 2 stale, 1 active; its
/// age is the seconds from its latest sign of activity (the later of last
/// commit and modification time, whichever are known) to `now`, never
/// negative; only with neither time known is the age `UNKNOWN_AGE_SECS`.
pub proof fn lemma_rank_key_from_activity(w: Worktree, now: i64)
    requires
        w.status != WorktreeStatus::MainRepo,
    ensures
        relevance_of(w, now).tier == (if w.status == WorktreeStatus::Orphaned {
            3u8
        } else if w.status == WorktreeStatus::Stale {
            2u8
        } else {
            1u8
        }),
        relevance_of(w, now).merged == w.merged,
        relevance_of(w, now).age == match (w.last_commit, w.last_modified) {
            (None, None) => UNKNOWN_AGE_SECS as int,
            (Some(t), None) => if now - t <= 0 {
                0
            } else {
                now - t
            },
            (None, Some(t)) => if now - t <= 0 {
                0
            } else {
                now - t
            },
            (Some(a), Some(b)) => if now - a <= 0 || now - b <= 0 {
                0
            } else if now - a < now - b {
                now - a
            } else {
                now - b
            },
        },
{
}

/// Of two candidates of the same tier and merged flag, the one whose only
/// known activity (its modification time, with no commit) is older ranks
/// strictly higher.
pub proof fn lemma_older_mtime_ranks_higher(a: Worktree, b: Worktree, now: i64, ta: i64, tb: i64)
    requires
        a.status == b.status,
        a.status != WorktreeStatus::MainRepo,
        a.merged == b.merged,
        a.last_commit is None,
        b.last_commit is None,
        a.last_modified == Some(ta),
        b.last_modified == Some(tb),
        ta < tb,
        tb < now,
    ensures
        score_of(a, now) > score_of(b, now),
{
    lemma_rank_key_from_activity(a, now);
    lemma_rank_key_from_activity(b, now);
}

} // verus!
