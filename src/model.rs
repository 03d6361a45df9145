//! The mathematical model of a whole book and what its queries return.
use vstd::prelude::*;
use crate::types::{CAP, HALF_CAP, Side, Update};
use crate::slots::{slot_of, price_of};
use crate::levels::{SideBook, scan_levels};

verus! {

/// A book: both sides and the anchor price.
pub struct BookModel {
    pub bids: SideBook,
    pub asks: SideBook,
    pub anchor: int,
}

impl BookModel {
    /// A book with no resting level, its best slots at the empty sentinels.
    pub open spec fn empty(anchor: int) -> BookModel {
        BookModel {
            bids: SideBook { levels: Seq::new(CAP as nat, |i: int| 0u64), best: 0 },
            asks: SideBook { levels: Seq::new(CAP as nat, |i: int| 0u64), best: CAP as int - 1 },
            anchor,
        }
    }

    /// Both sides are well formed, and every slot's price fits in an `i64`.
    pub open spec fn wf(self) -> bool {
        &&& self.bids.wf()
        &&& self.asks.wf()
        &&& i64::MIN + CAP as int <= self.anchor <= i64::MAX - CAP as int
    }

    pub open spec fn side(self, side: Side) -> SideBook {
        match side {
            Side::Bid => self.bids,
            Side::Ask => self.asks,
        }
    }

    pub open spec fn with_side(self, side: Side, sb: SideBook) -> BookModel {
        match side {
            Side::Bid => BookModel { bids: sb, ..self },
            Side::Ask => BookModel { asks: sb, ..self },
        }
    }

    /// The book after one update.
    pub open spec fn apply(self, u: Update) -> BookModel {
        match u {
            Update::SetLevel { price, quantity, side } => {
                let slot = slot_of(price as int, self.anchor);
                if quantity > 0 {
                    self.with_side(side, self.side(side).set(side, slot, quantity))
                } else {
                    self.with_side(side, self.side(side).clear(side, slot))
                }
            },
            Update::Remove { price, side } => {
                let slot = slot_of(price as int, self.anchor);
                self.with_side(side, self.side(side).clear(side, slot))
            },
        }
    }

    /// The book after a sequence of updates, applied in order.
    pub open spec fn apply_all(self, us: Seq<Update>) -> BookModel
        decreases us.len(),
    {
        if us.len() == 0 {
            self
        } else {
            self.apply_all(us.drop_last()).apply(us.last())
        }
    }

    /// Both side totals fit in a `Quantity`.
    pub open spec fn fits(self) -> bool {
        &&& self.bids.total() <= u64::MAX
        &&& self.asks.total() <= u64::MAX
    }

    pub open spec fn total(self, side: Side) -> int {
        self.side(side).total()
    }

    /// The price at the cached best slot, or nothing when the side is empty.
    pub open spec fn best_price(self, side: Side) -> Option<i64> {
        if self.total(side) == 0 {
            None
        } else {
            Some(price_of(self.side(side).best, self.anchor) as i64)
        }
    }

    /// Best ask minus best bid, when both sides hold a level.
    pub open spec fn spread(self) -> Option<i64> {
        if self.total(Side::Bid) == 0 || self.total(Side::Ask) == 0 {
            None
        } else {
            Some(
                (price_of(self.asks.best, self.anchor) - price_of(self.bids.best, self.anchor)) as i64,
            )
        }
    }

    /// The quantity resting in the slot of `price`, if any.
    pub open spec fn quantity_at(self, price: int, side: Side) -> Option<u64> {
        let q = self.side(side).levels[slot_of(price, self.anchor)];
        if q > 0 {
            Some(q)
        } else {
            None
        }
    }

    /// The quantity at each price of the window, lowest price first, zero
    /// where no level rests.
    pub open spec fn window_quantities(self, side: Side) -> Seq<u64> {
        Seq::new(
            CAP as nat,
            |k: int|
                match self.quantity_at(self.anchor + k - (HALF_CAP as int - 1), side) {
                    Some(q) => q,
                    None => 0u64,
                },
        )
    }

    /// The first `n` levels of the side in scan order (all of them if fewer).
    pub open spec fn top_levels(self, side: Side, n: int) -> Seq<(i64, u64)> {
        let all = scan_levels(self.side(side).levels, self.anchor, side);
        if n < all.len() {
            all.take(n)
        } else {
            all
        }
    }
}

} // verus!
