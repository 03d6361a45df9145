use orderbook::{improves_best, OrderBookImpl, Side, CAP, DEFAULT_ANCHOR, HALF_CAP};

#[test]
fn slot_inverse_over_window() {
    let book = OrderBookImpl::new();
    let half = HALF_CAP as i64;
    for p in (DEFAULT_ANCHOR - half + 1)..=(DEFAULT_ANCHOR + half) {
        let slot = book.price_to_index(p);
        assert!(slot < CAP);
        assert_eq!(book.index_to_price(slot), p);
    }
}

#[test]
fn slot_values() {
    let book = OrderBookImpl::new();
    assert_eq!(book.price_to_index(10000), 0);
    assert_eq!(book.price_to_index(10005), 5);
    assert_eq!(book.price_to_index(9999), 4095);
    assert_eq!(book.price_to_index(12048), 2048);
    assert_eq!(book.price_to_index(7952), 2048);
    assert_eq!(book.index_to_price(2048), 12048);
    assert_eq!(book.index_to_price(2049), 7953);
    assert_eq!(book.index_to_price(4095), 9999);
}

#[test]
fn range_check() {
    let book = OrderBookImpl::new();
    assert!(book.is_in_range(10000));
    assert!(book.is_in_range(12047));
    assert!(!book.is_in_range(12048));
    assert!(book.is_in_range(7953));
    assert!(!book.is_in_range(7952));
    assert!(!book.is_in_range(i64::MIN));
    assert!(!book.is_in_range(i64::MAX));
}

#[test]
fn recenter_keeps_book() {
    let mut book = OrderBookImpl::new();
    book.apply_update(orderbook::Update::SetLevel { price: 10003, quantity: 2, side: Side::Bid });
    book.recenter_anchor(50000);
    assert_eq!(book.get_best_bid(), Some(10003));
    assert_eq!(book.price_to_index(10003), 3);
}

#[test]
fn circular_comparator() {
    assert!(improves_best(Side::Bid, 10, 5));
    assert!(improves_best(Side::Bid, 5, 5));
    assert!(!improves_best(Side::Bid, 5, 10));
    assert!(improves_best(Side::Bid, 1, 4095));
    assert!(!improves_best(Side::Bid, 2048, 0));
    assert!(improves_best(Side::Bid, 2047, 0));
    assert!(improves_best(Side::Ask, 5, 10));
    assert!(!improves_best(Side::Ask, 10, 5));
    assert!(improves_best(Side::Ask, 4095, 1));
    assert!(!improves_best(Side::Ask, 0, 2048));
}
