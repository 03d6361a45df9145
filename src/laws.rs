//! Properties of the book that hold across updates and queries.
use vstd::prelude::*;
use crate::types::{CAP, HALF_CAP, Price, Side, Update};
use crate::slots::{slot_of, slot_offset};
use crate::levels::{
    SideBook, improves, at_least_as_good, is_live, any_live, lemma_rescan_best, lemma_sum_zeros,
    level_sum, by_price, rank_slot, lemma_sum_by_price,
};
use crate::model::BookModel;

verus! {

/// Within half the capacity, the circular adoption rule says exactly whether
/// the new slot's price is at least as good as the best slot's.
pub proof fn lemma_improves_is_better(side: Side, slot: int, best: int)
    requires
        0 <= slot < CAP,
        0 <= best < CAP,
        -(HALF_CAP as int) < slot_offset(slot) - slot_offset(best) < HALF_CAP as int,
    ensures
        improves(side, slot, best) <==> at_least_as_good(side, slot, best),
{
    let d = slot_offset(slot) - slot_offset(best);
    assert(slot - best == d || slot - best == d + 4096 || slot - best == d - 4096);
    assert(best - slot == -d || best - slot == -d + 4096 || best - slot == -d - 4096);
    if d >= 0 {
        assert((slot - best) % 4096 == d);
    } else {
        assert((slot - best) % 4096 == d + 4096);
    }
    if d <= 0 {
        assert((best - slot) % 4096 == -d);
    } else {
        assert((best - slot) % 4096 == -d + 4096);
    }
}

proof fn lemma_set_keeps_best(sb: SideBook, side: Side, slot: int, q: u64)
    requires
        sb.wf(),
        0 <= slot < CAP,
        q > 0,
        sb.best_ok(side),
        sb.set(side, slot, q).tight(),
    ensures
        sb.set(side, slot, q).best_ok(side),
{
    let n = sb.set(side, slot, q);
    assert(is_live(n.levels, slot));
    if sb.only_live_at(slot) {
        assert forall|i: int| is_live(n.levels, i) implies at_least_as_good(side, n.best, i) by {
            assert(i == slot);
        }
    } else {
        let j = choose|j: int| !(0 <= j < sb.levels.len() && j != slot ==> sb.levels[j] == 0);
        assert(is_live(sb.levels, j));
        let b = sb.best;
        assert(is_live(n.levels, b)) by {
            if b != slot {
                assert(n.levels[b] == sb.levels[b]);
            }
        }
        lemma_improves_is_better(side, slot, b);
        assert forall|i: int| is_live(n.levels, i) implies at_least_as_good(side, n.best, i) by {
            if i != slot {
                assert(is_live(sb.levels, i));
            }
        }
    }
}

proof fn lemma_clear_keeps_best(sb: SideBook, side: Side, slot: int)
    requires
        sb.wf(),
        0 <= slot < CAP,
        sb.best_ok(side),
    ensures
        sb.clear(side, slot).best_ok(side),
{
    let n = sb.clear(side, slot);
    if sb.levels[slot] != 0 {
        assert(is_live(sb.levels, slot));
        if slot != sb.best {
            assert(n.levels[sb.best] == sb.levels[sb.best]);
            assert forall|i: int| is_live(n.levels, i) implies at_least_as_good(side, n.best, i) by {
                assert(is_live(sb.levels, i));
            }
        } else {
            lemma_rescan_best(n.levels, side);
        }
    }
}

/// One update keeps each side's cached best slot correct, provided that
/// afterwards the side's resting levels lie within less than half the
/// capacity of each other: if before the update the best slot held the best
/// price among the resting levels, it does after.
pub proof fn lemma_update_keeps_best(b: BookModel, u: Update, side: Side)
    requires
        b.wf(),
        b.side(side).best_ok(side),
        b.apply(u).side(side).tight(),
    ensures
        b.apply(u).side(side).best_ok(side),
{
    match u {
        Update::SetLevel { price, quantity, side: s } => {
            if s == side {
                let slot = slot_of(price as int, b.anchor);
                if quantity > 0 {
                    lemma_set_keeps_best(b.side(side), side, slot, quantity);
                } else {
                    lemma_clear_keeps_best(b.side(side), side, slot);
                }
            }
        },
        Update::Remove { price, side: s } => {
            if s == side {
                lemma_clear_keeps_best(b.side(side), side, slot_of(price as int, b.anchor));
            }
        },
    }
}

/// Updates keep a book well formed.
pub proof fn lemma_update_keeps_wf(b: BookModel, u: Update)
    requires
        b.wf(),
    ensures
        b.apply(u).wf(),
{
    let slot = slot_of(u.price_of() as int, b.anchor);
    lemma_rescan_best(b.bids.levels.update(slot, 0), Side::Bid);
    lemma_rescan_best(b.asks.levels.update(slot, 0), Side::Ask);
}

/// Starting from a book whose best slots are correct, after any sequence of
/// updates each side's best slot holds the best resting price, provided that
/// after every update the side's resting levels lie within less than half
/// the capacity of each other.
pub proof fn lemma_best_correct(b: BookModel, us: Seq<Update>, side: Side)
    requires
        b.wf(),
        b.side(side).best_ok(side),
        forall|k: int| 1 <= k <= us.len() ==> (#[trigger] b.apply_all(us.take(k))).side(side).tight(),
    ensures
        b.apply_all(us).wf(),
        b.apply_all(us).side(side).best_ok(side),
    decreases us.len(),
{
    if us.len() > 0 {
        let p = us.drop_last();
        assert forall|k: int| 1 <= k <= p.len() implies (#[trigger] b.apply_all(p.take(k))).side(
            side,
        ).tight() by {
            assert(p.take(k) =~= us.take(k));
        }
        lemma_best_correct(b, p, side);
        assert(us.take(us.len() as int) =~= us);
        assert(b.apply_all(us.take(us.len() as int)).side(side).tight());
        assert(b.apply_all(us) == b.apply_all(p).apply(us.last()));
        lemma_update_keeps_wf(b.apply_all(p), us.last());
        lemma_update_keeps_best(b.apply_all(p), us.last(), side);
    }
}

/// In an empty book the best slots are trivially correct.
pub proof fn lemma_empty_best_ok(anchor: int, side: Side)
    ensures
        BookModel::empty(anchor).side(side).best_ok(side),
{
    assert(!any_live(BookModel::empty(anchor).side(side).levels));
}

/// Removing a level a second time changes nothing.
pub proof fn lemma_remove_idempotent(b: BookModel, price: Price, side: Side)
    requires
        b.wf(),
    ensures
        b.apply(Update::Remove { price, side }).apply(Update::Remove { price, side }) == b.apply(
            Update::Remove { price, side },
        ),
{
}

/// Setting a quantity of zero at an empty level changes nothing.
pub proof fn lemma_set_zero_when_absent(b: BookModel, price: Price, side: Side)
    requires
        b.wf(),
        b.quantity_at(price as int, side) is None,
    ensures
        b.apply(Update::SetLevel { price, quantity: 0, side }) == b,
{
}

/// A freshly built book has no best price, no spread, no quantity at any
/// price and zero totals.
pub proof fn lemma_empty_queries(anchor: int, price: int, side: Side)
    ensures
        BookModel::empty(anchor).best_price(Side::Bid) is None,
        BookModel::empty(anchor).best_price(Side::Ask) is None,
        BookModel::empty(anchor).spread() is None,
        BookModel::empty(anchor).quantity_at(price, side) is None,
        BookModel::empty(anchor).total(Side::Bid) == 0,
        BookModel::empty(anchor).total(Side::Ask) == 0,
{
    lemma_sum_zeros(CAP as nat);
}

/// A side's total is the sum of the quantities at the prices of the
/// representable window.
pub proof fn lemma_total_is_window_sum(b: BookModel, side: Side)
    requires
        b.wf(),
    ensures
        b.total(side) == level_sum(b.window_quantities(side)),
{
    let s = b.side(side).levels;
    assert forall|k: int| 0 <= k < CAP implies slot_of(
        b.anchor + k - (HALF_CAP as int - 1),
        b.anchor,
    ) == rank_slot(k) by {
        if k >= HALF_CAP as int - 1 {
            assert((k - (HALF_CAP as int - 1)) % 4096 == k - (HALF_CAP as int - 1));
        } else {
            assert((k - (HALF_CAP as int - 1)) % 4096 == k + HALF_CAP as int + 1);
        }
    }
    assert(b.window_quantities(side) =~= by_price(s));
    lemma_sum_by_price(s);
}

} // verus!
