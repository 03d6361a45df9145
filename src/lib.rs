//! A fixed-capacity limit order book level store.
//!
//! Prices map to slots of two circular arrays (one per side) relative to a
//! fixed anchor price; the best level of each side is tracked incrementally.
pub mod types;
pub mod slots;
pub mod levels;
pub mod model;
pub mod book;
pub mod laws;

pub use book::{OrderBookImpl, improves_best};
pub use types::{Price, Quantity, Side, Update, CAP, HALF_CAP, DEFAULT_ANCHOR};
