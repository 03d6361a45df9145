//! The executable order book.
use vstd::prelude::*;
use crate::types::{CAP, CAP_MASK, HALF_CAP, DEFAULT_ANCHOR, Price, Quantity, Side, Update};
use crate::slots::{slot_of, price_of, slot_index};
use crate::levels::{
    SideBook, level_sum, rescan_best, highest_live_below, lowest_live_from, lemma_sum_update,
    lemma_sum_bounds, lemma_sum_zeros, lemma_rescan_best, scan_levels,
    levels_desc, levels_asc, improves, by_price, rank_slot, lemma_desc_prefix, lemma_asc_prefix,
};
use crate::model::BookModel;

verus! {

/// Whether a level written at slot `index` takes over from the best slot
/// `best`: the forward circular distance, from `best` to `index` for bids and
/// from `index` to `best` for asks, is under half the capacity.
///
/// This stands for "strictly better price, or the same slot" only while all
/// resting levels of the side lie within half the capacity of each other.
pub fn improves_best(side: Side, index: usize, best: usize) -> (r: bool)
    requires
        index < CAP,
        best < CAP,
    ensures
        r == improves(side, index as int, best as int),
{
    let forward: usize = match side {
        Side::Bid => (index + CAP - best) & CAP_MASK,
        Side::Ask => (best + CAP - index) & CAP_MASK,
    };
    proof {
        let x: usize = match side {
            Side::Bid => (index + CAP - best) as usize,
            Side::Ask => (best + CAP - index) as usize,
        };
        assert(x & 4095usize == x % 4096) by (bit_vector);
        assert(forward == x % 4096);
    }
    forward < HALF_CAP
}

/// The slot that holds the price of rank `k` in the window.
fn slot_of_rank(k: usize) -> (r: usize)
    requires
        k < CAP,
    ensures
        r as int == rank_slot(k as int),
        r < CAP,
{
    if k >= HALF_CAP - 1 {
        k - (HALF_CAP - 1)
    } else {
        k + HALF_CAP + 1
    }
}

/// A limit order book of two fixed arrays of `CAP` price levels, indexed by
/// the price's offset from a fixed anchor, with the best slot and the total
/// quantity of each side maintained on every update.
///
/// The anchor never moves: a price outside the window
/// `(anchor - CAP/2, anchor + CAP/2]` aliases onto the slot of a price
/// inside it.
pub struct OrderBookImpl {
    bids: Vec<Quantity>,
    asks: Vec<Quantity>,
    anchor_price: Price,
    best_bid_idx: usize,
    best_ask_idx: usize,
    total_bid_quantity: Quantity,
    total_ask_quantity: Quantity,
}

impl View for OrderBookImpl {
    type V = BookModel;

    closed spec fn view(&self) -> BookModel {
        BookModel {
            bids: SideBook { levels: self.bids@, best: self.best_bid_idx as int },
            asks: SideBook { levels: self.asks@, best: self.best_ask_idx as int },
            anchor: self.anchor_price as int,
        }
    }
}

impl OrderBookImpl {
    /// The model is well formed and each stored total is the sum of its side.
    pub closed spec fn wf(&self) -> bool {
        &&& self@.wf()
        &&& self.total_bid_quantity as int == level_sum(self.bids@)
        &&& self.total_ask_quantity as int == level_sum(self.asks@)
    }

    /// A well-formed book has a well-formed model whose side totals fit in a
    /// `Quantity`.
    pub proof fn lemma_wf(&self)
        requires
            self.wf(),
        ensures
            self@.wf(),
            self@.fits(),
    {
    }

    /// An empty book anchored at `DEFAULT_ANCHOR`.
    pub fn new() -> (r: Self)
        ensures
            r.wf(),
            r@ == BookModel::empty(DEFAULT_ANCHOR as int),
    {
        let r = OrderBookImpl {
            bids: vec![0; CAP],
            asks: vec![0; CAP],
            anchor_price: DEFAULT_ANCHOR,
            best_bid_idx: 0,
            best_ask_idx: CAP_MASK,
            total_bid_quantity: 0,
            total_ask_quantity: 0,
        };
        proof {
            let z = Seq::new(CAP as nat, |i: int| 0u64);
            assert(r.bids@ =~= z);
            assert(r.asks@ =~= z);
            lemma_sum_zeros(CAP as nat);
        }
        r
    }

    /// The slot that `price` maps to.
    pub fn price_to_index(&self, price: Price) -> (r: usize)
        ensures
            r as int == slot_of(price as int, self@.anchor),
            r < CAP,
    {
        slot_index(price, self.anchor_price)
    }

    /// The price that slot `index` stands for.
    pub fn index_to_price(&self, index: usize) -> (r: Price)
        requires
            self.wf(),
            index < CAP,
        ensures
            r as int == price_of(index as int, self@.anchor),
    {
        let offset = index as i64;
        let adjustment: i64 = if offset > HALF_CAP as i64 { -(CAP as i64) } else { 0 };
        self.anchor_price + offset + adjustment
    }

    /// Whether `price` lies strictly within half the capacity of the anchor.
    pub fn is_in_range(&self, price: Price) -> (r: bool)
        ensures
            r == (-(HALF_CAP as int) < price as int - self@.anchor < HALF_CAP as int),
    {
        let d: i128 = price as i128 - self.anchor_price as i128;
        -(HALF_CAP as i128) < d && d < HALF_CAP as i128
    }

    /// Hook for moving the anchor when prices drift; it does nothing, so the
    /// representable window stays where construction put it.
    pub fn recenter_anchor(&mut self, _new_price: Price)
        ensures
            *final(self) == *old(self),
    {
    }

    /// Sets `best_idx` by a full scan of `book` in price order: for bids
    /// from the highest price of the window down, for asks from the lowest
    /// up, adopting the first slot that holds a quantity (slot 0 for bids,
    /// `CAP - 1` for asks, when none does).
    fn recalculate_best_index(side: Side, best_idx: &mut usize, book: &Vec<Quantity>)
        requires
            book@.len() == CAP,
        ensures
            *final(best_idx) as int == rescan_best(book@, side),
    {
        let ghost ranked = by_price(book@);
        match side {
            Side::Bid => {
                let mut k: usize = CAP;
                while k > 0
                    invariant
                        k <= CAP,
                        side == Side::Bid,
                        book@.len() == CAP,
                        ranked == by_price(book@),
                        highest_live_below(ranked, k as int) == highest_live_below(ranked, CAP as int),
                    decreases k,
                {
                    k = k - 1;
                    let slot = slot_of_rank(k);
                    if book[slot] > 0 {
                        assert(highest_live_below(ranked, k as int + 1) == k as int);
                        *best_idx = slot;
                        return;
                    }
                }
                *best_idx = 0;
            },
            Side::Ask => {
                let mut k: usize = 0;
                while k < CAP
                    invariant
                        k <= CAP,
                        side == Side::Ask,
                        book@.len() == CAP,
                        ranked == by_price(book@),
                        lowest_live_from(ranked, k as int) == lowest_live_from(ranked, 0),
                    decreases CAP - k,
                {
                    let slot = slot_of_rank(k);
                    if book[slot] > 0 {
                        assert(lowest_live_from(ranked, k as int) == k as int);
                        *best_idx = slot;
                        return;
                    }
                    k = k + 1;
                }
                *best_idx = CAP_MASK;
            },
        }
    }

    /// Writes a positive `quantity` into slot `index` of one side, adjusts
    /// the side's total by the change, and adopts the slot as best when the
    /// side held no other level or when it is closer to the better end by
    /// the circular half-capacity rule.
    fn set_on_side(
        side: Side,
        book: &mut Vec<Quantity>,
        best_idx: &mut usize,
        total_qty: &mut Quantity,
        index: usize,
        quantity: Quantity,
    )
        requires
            old(book)@.len() == CAP,
            *old(best_idx) < CAP,
            index < CAP,
            quantity > 0,
            *old(total_qty) as int == level_sum(old(book)@),
            level_sum(old(book)@.update(index as int, quantity)) <= u64::MAX,
        ensures
            (SideBook { levels: final(book)@, best: *final(best_idx) as int }) == (SideBook {
                levels: old(book)@,
                best: *old(best_idx) as int,
            }).set(side, index as int, quantity),
            *final(total_qty) as int == level_sum(final(book)@),
    {
        let ghost before = SideBook { levels: book@, best: *best_idx as int };
        let old_quantity = book[index];
        proof {
            lemma_sum_update(book@, index as int, quantity);
            lemma_sum_update(book@, index as int, 0);
            lemma_sum_bounds(book@);
            lemma_sum_bounds(book@.update(index as int, 0));
            before.lemma_only_live_at(index as int);
        }
        book.set(index, quantity);
        if old_quantity == 0 {
            *total_qty = *total_qty + quantity;
        } else {
            *total_qty = *total_qty - old_quantity + quantity;
        }
        if *total_qty == quantity {
            *best_idx = index;
        } else {
            if improves_best(side, index, *best_idx) {
                *best_idx = index;
            }
        }
    }

    /// Clears slot `index` of one side; when it held a quantity, the total
    /// drops by it and, if it was the best slot, the best is found again by
    /// a full scan.
    fn clear_on_side(
        side: Side,
        book: &mut Vec<Quantity>,
        best_idx: &mut usize,
        total_qty: &mut Quantity,
        index: usize,
    )
        requires
            old(book)@.len() == CAP,
            *old(best_idx) < CAP,
            index < CAP,
            *old(total_qty) as int == level_sum(old(book)@),
        ensures
            (SideBook { levels: final(book)@, best: *final(best_idx) as int }) == (SideBook {
                levels: old(book)@,
                best: *old(best_idx) as int,
            }).clear(side, index as int),
            *final(total_qty) as int == level_sum(final(book)@),
            *final(best_idx) < CAP,
    {
        let removed_quantity = book[index];
        if removed_quantity > 0 {
            proof {
                lemma_sum_update(book@, index as int, 0);
                lemma_sum_bounds(book@);
            }
            book.set(index, 0);
            *total_qty = *total_qty - removed_quantity;
            if index == *best_idx {
                OrderBookImpl::recalculate_best_index(side, best_idx, book);
                proof {
                    lemma_rescan_best(book@, side);
                }
            }
        }
    }

    /// Applies one update to the book.
    ///
    /// Setting a positive quantity replaces whatever rested at the price;
    /// setting zero, or removing, clears the level. Prices outside the
    /// representable window alias onto another slot.
    pub fn apply_update(&mut self, update: Update)
        requires
            old(self).wf(),
            old(self)@.apply(update).fits(),
        ensures
            final(self).wf(),
            final(self)@ == old(self)@.apply(update),
    {
        proof {
            lemma_sum_bounds(self.bids@);
            lemma_sum_bounds(self.asks@);
        }
        match update {
            Update::SetLevel { price, quantity, side } => {
                let index = slot_index(price, self.anchor_price);
                if quantity > 0 {
                    match side {
                        Side::Bid => OrderBookImpl::set_on_side(
                            side,
                            &mut self.bids,
                            &mut self.best_bid_idx,
                            &mut self.total_bid_quantity,
                            index,
                            quantity,
                        ),
                        Side::Ask => OrderBookImpl::set_on_side(
                            side,
                            &mut self.asks,
                            &mut self.best_ask_idx,
                            &mut self.total_ask_quantity,
                            index,
                            quantity,
                        ),
                    }
                } else {
                    self.clear_level(side, index);
                }
            },
            Update::Remove { price, side } => {
                let index = slot_index(price, self.anchor_price);
                self.clear_level(side, index);
            },
        }
    }

    fn clear_level(&mut self, side: Side, index: usize)
        requires
            old(self).wf(),
            index < CAP,
        ensures
            final(self).wf(),
            final(self)@ == old(self)@.with_side(
                side,
                old(self)@.side(side).clear(side, index as int),
            ),
    {
        match side {
            Side::Bid => OrderBookImpl::clear_on_side(
                side,
                &mut self.bids,
                &mut self.best_bid_idx,
                &mut self.total_bid_quantity,
                index,
            ),
            Side::Ask => OrderBookImpl::clear_on_side(
                side,
                &mut self.asks,
                &mut self.best_ask_idx,
                &mut self.total_ask_quantity,
                index,
            ),
        }
    }

    /// Best ask minus best bid, or `None` unless both sides hold a level.
    /// A crossed book gives a negative spread.
    pub fn get_spread(&self) -> (r: Option<Price>)
        requires
            self.wf(),
        ensures
            r == self@.spread(),
    {
        if self.total_bid_quantity == 0 || self.total_ask_quantity == 0 {
            None
        } else {
            let bid = self.index_to_price(self.best_bid_idx);
            let ask = self.index_to_price(self.best_ask_idx);
            Some(ask - bid)
        }
    }

    /// The highest bid price, or `None` when no bid rests.
    pub fn get_best_bid(&self) -> (r: Option<Price>)
        requires
            self.wf(),
        ensures
            r == self@.best_price(Side::Bid),
    {
        if self.total_bid_quantity == 0 {
            None
        } else {
            Some(self.index_to_price(self.best_bid_idx))
        }
    }

    /// The lowest ask price, or `None` when no ask rests.
    pub fn get_best_ask(&self) -> (r: Option<Price>)
        requires
            self.wf(),
        ensures
            r == self@.best_price(Side::Ask),
    {
        if self.total_ask_quantity == 0 {
            None
        } else {
            Some(self.index_to_price(self.best_ask_idx))
        }
    }

    /// The quantity resting at `price` on `side`, or `None` when the level
    /// is empty.
    pub fn get_quantity_at(&self, price: Price, side: Side) -> (r: Option<Quantity>)
        requires
            self.wf(),
        ensures
            r == self@.quantity_at(price as int, side),
    {
        let index = slot_index(price, self.anchor_price);
        let qty = match side {
            Side::Bid => self.bids[index],
            Side::Ask => self.asks[index],
        };
        if qty > 0 {
            Some(qty)
        } else {
            None
        }
    }

    /// Up to `n` levels of `side`, best first: bids by decreasing price, asks
    /// by increasing price, scanning the window from its best end and
    /// stopping once `n` levels are found.
    pub fn get_top_levels(&self, side: Side, n: usize) -> (r: Vec<(Price, Quantity)>)
        requires
            self.wf(),
        ensures
            r@ == self@.top_levels(side, n as int),
    {
        let mut result: Vec<(Price, Quantity)> = Vec::new();
        let book = match side {
            Side::Bid => &self.bids,
            Side::Ask => &self.asks,
        };
        let ghost anchor = self@.anchor;
        let ghost ranked = by_price(book@);
        let ghost all = scan_levels(book@, anchor, side);
        match side {
            Side::Bid => {
                let mut k: usize = CAP;
                while k > 0 && result.len() < n
                    invariant
                        k <= CAP,
                        self.wf(),
                        book@.len() == CAP,
                        ranked == by_price(book@),
                        anchor == self@.anchor,
                        result@ == levels_desc(ranked, anchor, k as int),
                        result.len() <= n,
                    decreases k,
                {
                    k = k - 1;
                    let slot = slot_of_rank(k);
                    let qty = book[slot];
                    if qty > 0 {
                        let price = self.index_to_price(slot);
                        result.push((price, qty));
                    }
                    assert(result@ =~= levels_desc(ranked, anchor, k as int));
                }
                proof {
                    lemma_desc_prefix(ranked, anchor, 0, k as int);
                }
            },
            Side::Ask => {
                let mut k: usize = 0;
                while k < CAP && result.len() < n
                    invariant
                        k <= CAP,
                        self.wf(),
                        book@.len() == CAP,
                        ranked == by_price(book@),
                        anchor == self@.anchor,
                        result@ == levels_asc(ranked, anchor, k as int),
                        result.len() <= n,
                    decreases CAP - k,
                {
                    let slot = slot_of_rank(k);
                    let qty = book[slot];
                    if qty > 0 {
                        let price = self.index_to_price(slot);
                        result.push((price, qty));
                    }
                    k = k + 1;
                    assert(result@ =~= levels_asc(ranked, anchor, k as int));
                }
                proof {
                    lemma_asc_prefix(ranked, anchor, k as int, CAP as int);
                }
            },
        }
        proof {
            assert(all.take(all.len() as int) =~= all);
        }
        result
    }

    /// The total quantity resting on `side`.
    pub fn get_total_quantity(&self, side: Side) -> (r: Quantity)
        requires
            self.wf(),
        ensures
            r as int == self@.total(side),
    {
        match side {
            Side::Bid => self.total_bid_quantity,
            Side::Ask => self.total_ask_quantity,
        }
    }
}

} // verus!
