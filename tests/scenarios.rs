use orderbook::{OrderBookImpl, Side, Update};

fn set(price: i64, quantity: u64, side: Side) -> Update {
    Update::SetLevel { price, quantity, side }
}

fn remove(price: i64, side: Side) -> Update {
    Update::Remove { price, side }
}

#[test]
fn scenario_a_single_bid() {
    let mut book = OrderBookImpl::new();
    book.apply_update(set(10005, 3, Side::Bid));
    assert_eq!(book.get_best_bid(), Some(10005));
    assert_eq!(book.get_quantity_at(10005, Side::Bid), Some(3));
    assert_eq!(book.get_total_quantity(Side::Bid), 3);
}

#[test]
fn scenario_b_spread() {
    let mut book = OrderBookImpl::new();
    book.apply_update(set(10005, 3, Side::Bid));
    book.apply_update(set(10010, 2, Side::Ask));
    assert_eq!(book.get_spread(), Some(5));
}

#[test]
fn scenario_c_remove_only_bid() {
    let mut book = OrderBookImpl::new();
    book.apply_update(set(10005, 3, Side::Bid));
    book.apply_update(set(10010, 2, Side::Ask));
    book.apply_update(remove(10005, Side::Bid));
    assert_eq!(book.get_best_bid(), None);
    assert_eq!(book.get_total_quantity(Side::Bid), 0);
    assert_eq!(book.get_spread(), None);
}

#[test]
fn scenario_d_replace_size() {
    let mut book = OrderBookImpl::new();
    book.apply_update(set(10005, 3, Side::Bid));
    book.apply_update(set(10005, 7, Side::Bid));
    assert_eq!(book.get_quantity_at(10005, Side::Bid), Some(7));
    assert_eq!(book.get_total_quantity(Side::Bid), 7);
}

#[test]
fn scenario_e_best_falls_back() {
    let mut book = OrderBookImpl::new();
    book.apply_update(set(10005, 3, Side::Bid));
    book.apply_update(set(10008, 4, Side::Bid));
    assert_eq!(book.get_best_bid(), Some(10008));
    book.apply_update(remove(10008, Side::Bid));
    assert_eq!(book.get_best_bid(), Some(10005));
    assert_eq!(book.get_top_levels(Side::Bid, 5), vec![(10005, 3)]);
}

#[test]
fn empty_book_queries() {
    let book = OrderBookImpl::new();
    assert_eq!(book.get_best_bid(), None);
    assert_eq!(book.get_best_ask(), None);
    assert_eq!(book.get_spread(), None);
    for p in [i64::MIN, -1, 0, 9999, 10000, 10001, 12048, i64::MAX] {
        assert_eq!(book.get_quantity_at(p, Side::Bid), None);
        assert_eq!(book.get_quantity_at(p, Side::Ask), None);
    }
    assert_eq!(book.get_total_quantity(Side::Bid), 0);
    assert_eq!(book.get_total_quantity(Side::Ask), 0);
    assert!(book.get_top_levels(Side::Bid, 10).is_empty());
    assert!(book.get_top_levels(Side::Ask, 10).is_empty());
}

#[test]
fn total_tracks_sum_of_levels() {
    let mut book = OrderBookImpl::new();
    let steps = [
        (set(10001, 5, Side::Bid), 5u64),
        (set(10002, 6, Side::Bid), 11),
        (set(10001, 2, Side::Bid), 8),
        (set(10003, 0, Side::Bid), 8),
        (remove(10002, Side::Bid), 2),
        (remove(10002, Side::Bid), 2),
        (set(10001, 0, Side::Bid), 0),
    ];
    for (u, expected) in steps {
        book.apply_update(u);
        assert_eq!(book.get_total_quantity(Side::Bid), expected);
        let listed: u64 = book.get_top_levels(Side::Bid, 100).iter().map(|l| l.1).sum();
        assert_eq!(listed, expected);
        assert_eq!(book.get_total_quantity(Side::Ask), 0);
    }
}

#[test]
fn best_tracks_extremes() {
    let mut book = OrderBookImpl::new();
    book.apply_update(set(10010, 1, Side::Bid));
    book.apply_update(set(10003, 1, Side::Bid));
    assert_eq!(book.get_best_bid(), Some(10010));
    book.apply_update(set(10020, 1, Side::Bid));
    assert_eq!(book.get_best_bid(), Some(10020));
    book.apply_update(set(10050, 1, Side::Ask));
    book.apply_update(set(10040, 1, Side::Ask));
    book.apply_update(set(10060, 1, Side::Ask));
    assert_eq!(book.get_best_ask(), Some(10040));
    book.apply_update(remove(10040, Side::Ask));
    assert_eq!(book.get_best_ask(), Some(10050));
    book.apply_update(set(10020, 0, Side::Bid));
    assert_eq!(book.get_best_bid(), Some(10010));
    assert_eq!(book.get_spread(), Some(40));
}

#[test]
fn best_below_anchor() {
    let mut book = OrderBookImpl::new();
    book.apply_update(set(9990, 1, Side::Bid));
    book.apply_update(set(9995, 2, Side::Bid));
    book.apply_update(set(9980, 3, Side::Bid));
    assert_eq!(book.get_best_bid(), Some(9995));
    book.apply_update(remove(9995, Side::Bid));
    assert_eq!(book.get_best_bid(), Some(9990));
    book.apply_update(set(9970, 1, Side::Ask));
    book.apply_update(set(9960, 1, Side::Ask));
    assert_eq!(book.get_best_ask(), Some(9960));
    book.apply_update(remove(9960, Side::Ask));
    assert_eq!(book.get_best_ask(), Some(9970));
}

#[test]
fn removal_is_idempotent() {
    let mut book = OrderBookImpl::new();
    book.apply_update(set(10005, 3, Side::Bid));
    book.apply_update(set(10007, 4, Side::Bid));
    book.apply_update(set(10012, 1, Side::Ask));
    book.apply_update(remove(10007, Side::Bid));
    let snapshot = (
        book.get_total_quantity(Side::Bid),
        book.get_quantity_at(10007, Side::Bid),
        book.get_best_bid(),
        book.get_spread(),
    );
    book.apply_update(remove(10007, Side::Bid));
    book.apply_update(set(10007, 0, Side::Bid));
    assert_eq!(
        (
            book.get_total_quantity(Side::Bid),
            book.get_quantity_at(10007, Side::Bid),
            book.get_best_bid(),
            book.get_spread(),
        ),
        snapshot
    );
    assert_eq!(snapshot, (3, None, Some(10005), Some(7)));
}

#[test]
fn set_zero_on_empty_level_is_noop() {
    let mut book = OrderBookImpl::new();
    book.apply_update(set(10000, 0, Side::Ask));
    assert_eq!(book.get_best_ask(), None);
    assert_eq!(book.get_total_quantity(Side::Ask), 0);
    assert_eq!(book.get_quantity_at(10000, Side::Ask), None);
}

#[test]
fn crossed_book_gives_negative_spread() {
    let mut book = OrderBookImpl::new();
    book.apply_update(set(10010, 1, Side::Bid));
    book.apply_update(set(10004, 1, Side::Ask));
    assert_eq!(book.get_spread(), Some(-6));
}

#[test]
fn top_levels_orders_and_limits() {
    let mut book = OrderBookImpl::new();
    for (p, q) in [(10001, 1u64), (10004, 4), (10002, 2), (10003, 3)] {
        book.apply_update(set(p, q, Side::Bid));
        book.apply_update(set(p + 10, q * 10, Side::Ask));
    }
    assert_eq!(
        book.get_top_levels(Side::Bid, 3),
        vec![(10004, 4), (10003, 3), (10002, 2)]
    );
    assert_eq!(
        book.get_top_levels(Side::Ask, 2),
        vec![(10011, 10), (10012, 20)]
    );
    assert_eq!(book.get_top_levels(Side::Ask, 10).len(), 4);
    assert!(book.get_top_levels(Side::Bid, 0).is_empty());
}

#[test]
fn top_levels_follow_price_order_across_anchor() {
    let mut book = OrderBookImpl::new();
    book.apply_update(set(10000, 1, Side::Ask));
    book.apply_update(set(12048, 2, Side::Ask));
    book.apply_update(set(7953, 3, Side::Ask));
    assert_eq!(
        book.get_top_levels(Side::Ask, 5),
        vec![(7953, 3), (10000, 1), (12048, 2)]
    );
    let mut bids = OrderBookImpl::new();
    bids.apply_update(set(10003, 1, Side::Bid));
    bids.apply_update(set(9999, 1, Side::Bid));
    assert_eq!(bids.get_top_levels(Side::Bid, 2), vec![(10003, 1), (9999, 1)]);
    assert_eq!(bids.get_top_levels(Side::Bid, 1), vec![(10003, 1)]);
}

#[test]
fn out_of_window_price_aliases() {
    let mut book = OrderBookImpl::new();
    book.apply_update(set(10005, 3, Side::Bid));
    assert_eq!(book.get_quantity_at(10005 + 4096, Side::Bid), Some(3));
    book.apply_update(set(10005 - 4096, 9, Side::Bid));
    assert_eq!(book.get_quantity_at(10005, Side::Bid), Some(9));
    assert_eq!(book.get_total_quantity(Side::Bid), 9);
}

#[test]
fn extreme_prices_do_not_fail() {
    let mut book = OrderBookImpl::new();
    book.apply_update(set(i64::MAX, 1, Side::Ask));
    book.apply_update(set(i64::MIN, 2, Side::Bid));
    assert_eq!(book.get_quantity_at(i64::MAX, Side::Ask), Some(1));
    assert_eq!(book.get_quantity_at(i64::MIN, Side::Bid), Some(2));
    book.apply_update(remove(i64::MAX, Side::Ask));
    assert_eq!(book.get_best_ask(), None);
}

#[test]
fn largest_total_is_accepted() {
    let mut book = OrderBookImpl::new();
    book.apply_update(set(10001, u64::MAX - 1, Side::Bid));
    book.apply_update(set(10002, 1, Side::Bid));
    assert_eq!(book.get_total_quantity(Side::Bid), u64::MAX);
    assert_eq!(book.get_best_bid(), Some(10002));
}

#[test]
fn rescan_finds_best_price_across_anchor() {
    let mut book = OrderBookImpl::new();
    book.apply_update(set(9999, 1, Side::Bid));
    book.apply_update(set(10001, 1, Side::Bid));
    book.apply_update(set(10003, 1, Side::Bid));
    assert_eq!(book.get_best_bid(), Some(10003));
    book.apply_update(remove(10003, Side::Bid));
    assert_eq!(book.get_best_bid(), Some(10001));
    book.apply_update(remove(10001, Side::Bid));
    assert_eq!(book.get_best_bid(), Some(9999));

    let mut asks = OrderBookImpl::new();
    asks.apply_update(set(9997, 1, Side::Ask));
    asks.apply_update(set(9999, 1, Side::Ask));
    asks.apply_update(set(10002, 1, Side::Ask));
    assert_eq!(asks.get_best_ask(), Some(9997));
    asks.apply_update(remove(9997, Side::Ask));
    assert_eq!(asks.get_best_ask(), Some(9999));
    asks.apply_update(remove(9999, Side::Ask));
    assert_eq!(asks.get_best_ask(), Some(10002));
}
