//! The anchor-relative circular mapping between prices and slots.
use vstd::prelude::*;
use crate::types::{CAP, HALF_CAP};

verus! {

/// The slot that `price` occupies for a book anchored at `anchor`:
/// `(price - anchor) mod CAP`.
pub open spec fn slot_of(price: int, anchor: int) -> int {
    (price - anchor) % (CAP as int)
}

/// The signed offset from the anchor that a slot stands for, in
/// `(-CAP/2, CAP/2]`.
pub open spec fn slot_offset(slot: int) -> int {
    if slot > HALF_CAP as int {
        slot - CAP as int
    } else {
        slot
    }
}

/// The price that a slot stands for in a book anchored at `anchor`.
pub open spec fn price_of(slot: int, anchor: int) -> int {
    anchor + slot_offset(slot)
}

/// The representable window `(anchor - CAP/2, anchor + CAP/2]`.
pub open spec fn in_window(price: int, anchor: int) -> bool {
    anchor - (HALF_CAP as int) < price <= anchor + (HALF_CAP as int)
}

/// Mapping a price of the representable window to its slot and back gives
/// the price again.
pub proof fn lemma_slot_inverse(price: int, anchor: int)
    requires
        in_window(price, anchor),
    ensures
        0 <= slot_of(price, anchor) < CAP as int,
        price_of(slot_of(price, anchor), anchor) == price,
{
}

/// The slot of `price` relative to `anchor`, taken with the capacity mask.
///
/// The difference is formed in 128 bits and shifted by a multiple of the
/// capacity, so that it is non-negative and the mask gives the true residue.
pub fn slot_index(price: i64, anchor: i64) -> (r: usize)
    ensures
        r as int == slot_of(price as int, anchor as int),
        r < CAP,
{
    let bias: i128 = 0x2_0000_0000_0000_0000;
    let d: i128 = price as i128 - anchor as i128 + bias;
    let u: u128 = d as u128;
    let m: u128 = u & 4095u128;
    assert(m == u % 4096) by (bit_vector)
        requires
            m == u & 4095u128,
    ;
    assert((price - anchor + bias) % 4096 == (price - anchor) % 4096) by {
        assert(bias == 4096 * 0x20_0000_0000_0000);
        vstd::arithmetic::div_mod::lemma_mod_multiples_vanish(
            0x20_0000_0000_0000, price - anchor, 4096);
    }
    m as usize
}

} // verus!
