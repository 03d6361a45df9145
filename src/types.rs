use vstd::prelude::*;

verus! {

/// A price in ticks.
pub type Price = i64;

/// A resting quantity; zero means that no quantity rests at a level.
pub type Quantity = u64;

/// Number of slots per side; a power of two.
pub const CAP: usize = 4096;

/// Bitmask that reduces a price offset to a slot.
pub const CAP_MASK: usize = CAP - 1;

/// Half the capacity: the largest positive slot offset from the anchor.
pub const HALF_CAP: usize = CAP / 2;

/// Anchor price of a freshly constructed book.
pub const DEFAULT_ANCHOR: Price = 10000;

/// One side of the book.
#[derive(Clone, Copy, Debug, PartialEq, Eq, Structural)]
pub enum Side {
    Bid,
    Ask,
}

/// A mutation of one price level.
#[derive(Clone, Copy, Debug, PartialEq, Eq, Structural)]
pub enum Update {
    /// Establish `quantity` at `price`; a quantity of zero removes the level.
    SetLevel { price: Price, quantity: Quantity, side: Side },
    /// Clear the level at `price`.
    Remove { price: Price, side: Side },
}

impl Update {
    pub open spec fn price_of(self) -> Price {
        match self {
            Update::SetLevel { price, .. } => price,
            Update::Remove { price, .. } => price,
        }
    }
}

} // verus!
