//! The model of one side of the book: its level array and its best slot.
use vstd::prelude::*;
use crate::types::{CAP, HALF_CAP, Side};
use crate::slots::slot_offset;

verus! {

/// Sum of the quantities of a level array.
pub open spec fn level_sum(s: Seq<u64>) -> int
    decreases s.len(),
{
    if s.len() == 0 {
        0
    } else {
        level_sum(s.drop_last()) + s.last()
    }
}

/// Slot `i` holds a resting quantity.
pub open spec fn is_live(s: Seq<u64>, i: int) -> bool {
    0 <= i < s.len() && s[i] > 0
}

/// Some slot holds a resting quantity.
pub open spec fn any_live(s: Seq<u64>) -> bool {
    exists|i: int| is_live(s, i)
}

/// The highest slot below `k` that holds a quantity, or -1.
pub open spec fn highest_live_below(s: Seq<u64>, k: int) -> int
    decreases k,
{
    if k <= 0 {
        -1
    } else if s[k - 1] > 0 {
        k - 1
    } else {
        highest_live_below(s, k - 1)
    }
}

/// The lowest slot from `k` upward that holds a quantity, or `s.len()`.
pub open spec fn lowest_live_from(s: Seq<u64>, k: int) -> int
    decreases s.len() - k,
{
    if k >= s.len() {
        s.len() as int
    } else if s[k] > 0 {
        k
    } else {
        lowest_live_from(s, k + 1)
    }
}

/// The slot that holds the price of rank `k` in the window: rank 0 is the
/// lowest price, `anchor - CAP/2 + 1`, and rank `CAP - 1` the highest,
/// `anchor + CAP/2`.
pub open spec fn rank_slot(k: int) -> int {
    if k >= HALF_CAP as int - 1 {
        k - (HALF_CAP as int - 1)
    } else {
        k + HALF_CAP as int + 1
    }
}

/// The rank of the price that slot `i` holds.
pub open spec fn slot_rank(i: int) -> int {
    slot_offset(i) + HALF_CAP as int - 1
}

/// The quantities of a side ordered by price, lowest price first.
pub open spec fn by_price(s: Seq<u64>) -> Seq<u64> {
    Seq::new(s.len(), |k: int| s[rank_slot(k)])
}

/// The slot that a full scan adopts as best: for bids the live slot of the
/// highest price (slot 0 when none), for asks the live slot of the lowest
/// price (`CAP - 1` when none).
pub open spec fn rescan_best(s: Seq<u64>, side: Side) -> int {
    match side {
        Side::Bid => {
            let h = highest_live_below(by_price(s), CAP as int);
            if h >= 0 { rank_slot(h) } else { 0 }
        },
        Side::Ask => {
            let l = lowest_live_from(by_price(s), 0);
            if l < CAP as int { rank_slot(l) } else { CAP as int - 1 }
        },
    }
}

/// The constant-time adoption rule: `slot` replaces `best` when the forward
/// circular distance (from `best` to `slot` for bids, from `slot` to `best`
/// for asks) is under half the capacity.
pub open spec fn improves(side: Side, slot: int, best: int) -> bool {
    match side {
        Side::Bid => (slot - best) % (CAP as int) < HALF_CAP as int,
        Side::Ask => (best - slot) % (CAP as int) < HALF_CAP as int,
    }
}

/// The price of slot `i` is at least as good as that of slot `j`: not lower
/// for bids, not higher for asks.
pub open spec fn at_least_as_good(side: Side, i: int, j: int) -> bool {
    match side {
        Side::Bid => slot_offset(i) >= slot_offset(j),
        Side::Ask => slot_offset(i) <= slot_offset(j),
    }
}

/// One side of the book: the quantity of every slot and the cached best slot.
pub struct SideBook {
    pub levels: Seq<u64>,
    pub best: int,
}

impl SideBook {
    pub open spec fn wf(self) -> bool {
        &&& self.levels.len() == CAP
        &&& 0 <= self.best < CAP
    }

    /// Total resting quantity of the side.
    pub open spec fn total(self) -> int {
        level_sum(self.levels)
    }

    /// No slot other than `slot` holds a quantity.
    pub open spec fn only_live_at(self, slot: int) -> bool {
        forall|i: int| 0 <= i < self.levels.len() && i != slot ==> self.levels[i] == 0
    }

    pub proof fn lemma_only_live_at(self, slot: int)
        requires
            0 <= slot < self.levels.len(),
        ensures
            self.only_live_at(slot) <==> !any_live(self.levels.update(slot, 0)),
    {
        let u = self.levels.update(slot, 0);
        if self.only_live_at(slot) {
            assert forall|j: int| !is_live(u, j) by {
                if 0 <= j < u.len() && j != slot {
                    assert(self.levels[j] == 0);
                }
            }
        } else {
            let j = choose|j: int| !(0 <= j < self.levels.len() && j != slot ==> self.levels[j] == 0);
            assert(is_live(u, j));
        }
    }

    /// Writes a positive quantity into `slot`; the slot becomes best when no
    /// other level rests, or when the adoption rule says so.
    pub open spec fn set(self, side: Side, slot: int, q: u64) -> SideBook {
        SideBook {
            levels: self.levels.update(slot, q),
            best: if self.only_live_at(slot) || improves(side, slot, self.best) {
                slot
            } else {
                self.best
            },
        }
    }

    /// Clears `slot`; when it was the best, the best is found by a full scan.
    /// Clearing an empty slot changes nothing.
    pub open spec fn clear(self, side: Side, slot: int) -> SideBook {
        if self.levels[slot] == 0 {
            self
        } else {
            let lv = self.levels.update(slot, 0);
            SideBook {
                levels: lv,
                best: if slot == self.best { rescan_best(lv, side) } else { self.best },
            }
        }
    }

    /// Whenever a level rests, the best slot holds one whose price is the
    /// best among all resting levels.
    pub open spec fn best_ok(self, side: Side) -> bool {
        any_live(self.levels) ==> {
            &&& is_live(self.levels, self.best)
            &&& forall|i: int| is_live(self.levels, i) ==> at_least_as_good(side, self.best, i)
        }
    }

    /// All resting levels lie within a span of less than half the capacity
    /// of each other.
    pub open spec fn tight(self) -> bool {
        forall|i: int, j: int|
            is_live(self.levels, i) && is_live(self.levels, j) ==> -(HALF_CAP as int) < slot_offset(i)
                - slot_offset(j) < HALF_CAP as int
    }
}

/// The level of price rank `k`, in quantities `s` ordered by price, as a
/// (price, quantity) pair, or nothing when empty.
pub open spec fn level_entry(s: Seq<u64>, anchor: int, k: int) -> Seq<(i64, u64)> {
    if s[k] > 0 {
        seq![((anchor + k - (HALF_CAP as int - 1)) as i64, s[k])]
    } else {
        seq![]
    }
}

/// The levels of ranks `k..len`, in quantities ordered by price, from the
/// highest rank down.
pub open spec fn levels_desc(s: Seq<u64>, anchor: int, k: int) -> Seq<(i64, u64)>
    decreases s.len() - k,
{
    if 0 <= k < s.len() {
        levels_desc(s, anchor, k + 1) + level_entry(s, anchor, k)
    } else {
        seq![]
    }
}

/// The levels of ranks `0..k`, in quantities ordered by price, from the
/// lowest rank up.
pub open spec fn levels_asc(s: Seq<u64>, anchor: int, k: int) -> Seq<(i64, u64)>
    decreases k,
{
    if 0 < k <= s.len() {
        levels_asc(s, anchor, k - 1) + level_entry(s, anchor, k - 1)
    } else {
        seq![]
    }
}

/// Every level of a side from best to worst: bids by decreasing price, asks
/// by increasing price.
pub open spec fn scan_levels(s: Seq<u64>, anchor: int, side: Side) -> Seq<(i64, u64)> {
    match side {
        Side::Bid => levels_desc(by_price(s), anchor, 0),
        Side::Ask => levels_asc(by_price(s), anchor, s.len() as int),
    }
}

pub proof fn lemma_sum_update(s: Seq<u64>, i: int, v: u64)
    requires
        0 <= i < s.len(),
    ensures
        level_sum(s.update(i, v)) == level_sum(s) - s[i] + v,
    decreases s.len(),
{
    if i == s.len() - 1 {
        assert(s.update(i, v).drop_last() =~= s.drop_last());
    } else {
        lemma_sum_update(s.drop_last(), i, v);
        assert(s.update(i, v).drop_last() =~= s.drop_last().update(i, v));
    }
}

pub proof fn lemma_sum_bounds(s: Seq<u64>)
    ensures
        level_sum(s) >= 0,
        level_sum(s) == 0 <==> !any_live(s),
        forall|i: int| 0 <= i < s.len() ==> s[i] <= level_sum(s),
    decreases s.len(),
{
    if s.len() > 0 {
        let t = s.drop_last();
        lemma_sum_bounds(t);
        assert forall|i: int| 0 <= i < s.len() implies s[i] <= level_sum(s) by {
            if i < s.len() - 1 {
                assert(s[i] == t[i]);
            }
        }
        if any_live(s) {
            let i = choose|i: int| is_live(s, i);
            assert(s[i] <= level_sum(s));
        }
        if !any_live(s) {
            assert(!any_live(t)) by {
                if any_live(t) {
                    let i = choose|i: int| is_live(t, i);
                    assert(is_live(s, i));
                }
            }
            assert(!is_live(s, s.len() - 1));
        }
    }
}

pub proof fn lemma_sum_zeros(n: nat)
    ensures
        level_sum(Seq::new(n, |i: int| 0u64)) == 0,
    decreases n,
{
    if n > 0 {
        lemma_sum_zeros((n - 1) as nat);
        assert(Seq::new(n, |i: int| 0u64).drop_last() =~= Seq::new((n - 1) as nat, |i: int| 0u64));
    }
}

pub proof fn lemma_highest_live(s: Seq<u64>, k: int)
    requires
        0 <= k <= s.len(),
    ensures
        -1 <= highest_live_below(s, k) < k,
        highest_live_below(s, k) >= 0 ==> s[highest_live_below(s, k)] > 0,
        forall|i: int| highest_live_below(s, k) < i < k ==> s[i] == 0,
    decreases k,
{
    if k > 0 {
        lemma_highest_live(s, k - 1);
    }
}

pub proof fn lemma_lowest_live(s: Seq<u64>, k: int)
    requires
        0 <= k <= s.len(),
    ensures
        k <= lowest_live_from(s, k) <= s.len(),
        lowest_live_from(s, k) < s.len() ==> s[lowest_live_from(s, k)] > 0,
        forall|i: int| k <= i < lowest_live_from(s, k) ==> s[i] == 0,
    decreases s.len() - k,
{
    if k < s.len() {
        lemma_lowest_live(s, k + 1);
    }
}

pub proof fn lemma_desc_prefix(s: Seq<u64>, anchor: int, k: int, m: int)
    requires
        0 <= k <= m <= s.len(),
    ensures
        levels_desc(s, anchor, m).len() <= levels_desc(s, anchor, k).len(),
        levels_desc(s, anchor, k).take(levels_desc(s, anchor, m).len() as int)
            == levels_desc(s, anchor, m),
    decreases m - k,
{
    if k < m {
        lemma_desc_prefix(s, anchor, k + 1, m);
        let a = levels_desc(s, anchor, k + 1);
        let b = levels_desc(s, anchor, m);
        assert(levels_desc(s, anchor, k) == a + level_entry(s, anchor, k));
        assert((a + level_entry(s, anchor, k)).take(b.len() as int) =~= a.take(b.len() as int));
    } else {
        assert(levels_desc(s, anchor, k).take(levels_desc(s, anchor, k).len() as int)
            =~= levels_desc(s, anchor, k));
    }
}

pub proof fn lemma_asc_prefix(s: Seq<u64>, anchor: int, k: int, m: int)
    requires
        0 <= k <= m <= s.len(),
    ensures
        levels_asc(s, anchor, k).len() <= levels_asc(s, anchor, m).len(),
        levels_asc(s, anchor, m).take(levels_asc(s, anchor, k).len() as int)
            == levels_asc(s, anchor, k),
    decreases m - k,
{
    if k < m {
        lemma_asc_prefix(s, anchor, k, m - 1);
        let a = levels_asc(s, anchor, m - 1);
        let b = levels_asc(s, anchor, k);
        assert(levels_asc(s, anchor, m) == a + level_entry(s, anchor, m - 1));
        assert((a + level_entry(s, anchor, m - 1)).take(b.len() as int) =~= a.take(b.len() as int));
    } else {
        assert(levels_asc(s, anchor, k).take(levels_asc(s, anchor, k).len() as int)
            =~= levels_asc(s, anchor, k));
    }
}

/// Ranks and slots correspond one to one, and the rank of a slot's price is
/// its offset shifted to start at zero.
pub proof fn lemma_rank_slot(k: int, i: int)
    ensures
        0 <= k < CAP ==> 0 <= rank_slot(k) < CAP && slot_rank(rank_slot(k)) == k,
        0 <= i < CAP ==> 0 <= slot_rank(i) < CAP && rank_slot(slot_rank(i)) == i,
{
}

/// The full scan lands on a slot, and when a level rests, on a live slot
/// whose price is the best of the side.
pub proof fn lemma_rescan_best(s: Seq<u64>, side: Side)
    requires
        s.len() == CAP,
    ensures
        0 <= rescan_best(s, side) < CAP,
        any_live(s) ==> is_live(s, rescan_best(s, side)),
        any_live(s) ==> forall|i: int|
            is_live(s, i) ==> at_least_as_good(side, rescan_best(s, side), i),
{
    let r = by_price(s);
    lemma_highest_live(r, CAP as int);
    lemma_lowest_live(r, 0);
    let h = highest_live_below(r, CAP as int);
    let l = lowest_live_from(r, 0);
    if h >= 0 {
        lemma_rank_slot(h, 0);
    }
    if l < CAP {
        lemma_rank_slot(l, 0);
    }
    if any_live(s) {
        assert forall|i: int| is_live(s, i) implies {
            &&& 0 <= slot_rank(i) <= h
            &&& l <= slot_rank(i) < CAP
        } by {
            lemma_rank_slot(0, i);
            assert(r[slot_rank(i)] == s[i]);
        }
        let w = choose|w: int| is_live(s, w);
        assert(is_live(s, w));
        assert(r[h] == s[rank_slot(h)]);
        assert(r[l] == s[rank_slot(l)]);
    }
}

pub proof fn lemma_sum_concat(a: Seq<u64>, b: Seq<u64>)
    ensures
        level_sum(a + b) == level_sum(a) + level_sum(b),
    decreases b.len(),
{
    if b.len() == 0 {
        assert(a + b =~= a);
    } else {
        lemma_sum_concat(a, b.drop_last());
        assert((a + b).drop_last() =~= a + b.drop_last());
    }
}

/// Ordering a side by price keeps its sum.
pub proof fn lemma_sum_by_price(s: Seq<u64>)
    requires
        s.len() == CAP,
    ensures
        level_sum(by_price(s)) == level_sum(s),
{
    let lo = s.subrange(0, HALF_CAP as int + 1);
    let hi = s.subrange(HALF_CAP as int + 1, CAP as int);
    assert(by_price(s) =~= hi + lo);
    assert(s =~= lo + hi);
    lemma_sum_concat(hi, lo);
    lemma_sum_concat(lo, hi);
}

} // verus!
