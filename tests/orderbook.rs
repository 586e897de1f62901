use exchange_ws::ftx_model::{Dec, Orderbook, OrderbookAction, OrderbookData, Side};

fn d(m: i128, s: u32) -> Dec {
    Dec::new(m, s)
}

fn data(action: OrderbookAction, bids: Vec<(Dec, Dec)>, asks: Vec<(Dec, Dec)>) -> OrderbookData {
    OrderbookData { action, bids, asks, checksum: 0 }
}

fn book() -> Orderbook {
    let mut b = Orderbook::new("BTC-PERP".to_string());
    b.update(&data(
        OrderbookAction::Partial,
        vec![(d(100, 0), d(1, 0)), (d(995, 1), d(2, 0)), (d(99, 0), d(3, 0))],
        vec![(d(101, 0), d(1, 0)), (d(1015, 1), d(2, 0)), (d(102, 0), d(5, 0))],
    ));
    b
}

#[test]
fn snapshot_sets_both_sides() {
    let b = book();
    assert_eq!(b.symbol(), "BTC-PERP");
    assert_eq!(b.best_bid(), Some((d(100, 0), d(1, 0))));
    assert_eq!(b.best_ask(), Some((d(101, 0), d(1, 0))));
    assert_eq!(b.bid_price(), Some(d(100, 0)));
    assert_eq!(b.ask_price(), Some(d(101, 0)));
    assert_eq!(b.best_bid_and_ask(), Some(((d(100, 0), d(1, 0)), (d(101, 0), d(1, 0)))));
}

#[test]
fn empty_book_has_no_prices() {
    let b = Orderbook::new("X".to_string());
    assert_eq!(b.best_bid(), None);
    assert_eq!(b.best_ask(), None);
    assert_eq!(b.mid_price(), None);
    assert_eq!(b.best_bid_and_ask(), None);
    assert_eq!(b.quote(Side::Buy, d(1, 0)), None);
}

#[test]
fn update_removes_zero_levels_and_replaces_others() {
    let mut b = book();
    b.update(&data(
        OrderbookAction::Update,
        vec![(d(1000, 1), d(0, 0)), (d(995, 1), d(7, 0))],
        vec![(d(1010, 1), d(0, 3)), (d(1005, 1), d(4, 0))],
    ));
    assert_eq!(b.best_bid(), Some((d(995, 1), d(7, 0))));
    assert_eq!(b.best_ask(), Some((d(1005, 1), d(4, 0))));
    b.update(&data(OrderbookAction::Update, vec![(d(50, 0), d(0, 0))], vec![]));
    assert_eq!(b.best_bid(), Some((d(995, 1), d(7, 0))));
}

#[test]
fn partial_keeps_zero_quantities() {
    let mut b = Orderbook::new("X".to_string());
    b.update(&data(OrderbookAction::Partial, vec![(d(5, 0), d(0, 0))], vec![]));
    assert_eq!(b.best_bid(), Some((d(5, 0), d(0, 0))));
}

#[test]
fn mid_price_is_the_midpoint() {
    let b = book();
    let m = b.mid_price().unwrap();
    assert_eq!(
        rust_decimal::Decimal::from_i128_with_scale(m.mantissa, m.scale),
        rust_decimal::Decimal::from_i128_with_scale(1005, 1)
    );
}

#[test]
fn quote_averages_over_the_levels_it_takes() {
    let b = book();
    // buy 2: 1 at 101 and 1 at 101.5 -> 101.25
    let q = b.quote(Side::Buy, d(2, 0)).unwrap();
    assert_eq!(
        rust_decimal::Decimal::from_i128_with_scale(q.mantissa, q.scale),
        rust_decimal::Decimal::from_i128_with_scale(10125, 2)
    );
    // sell 3: 1 at 100 and 2 at 99.5 -> 99.666...
    let q = b.quote(Side::Sell, d(3, 0)).unwrap();
    let expected = rust_decimal::Decimal::from_i128_with_scale(299, 0) / rust_decimal::Decimal::from_i128_with_scale(3, 0);
    assert_eq!(rust_decimal::Decimal::from_i128_with_scale(q.mantissa, q.scale), expected);
    assert_eq!(b.quote(Side::Buy, d(9, 0)), None);
    assert_eq!(b.quote(Side::Buy, d(0, 0)), None);
    let q = b.quote(Side::Buy, d(8, 0)).unwrap();
    assert_eq!(
        rust_decimal::Decimal::from_i128_with_scale(q.mantissa, q.scale),
        rust_decimal::Decimal::from_i128_with_scale(8140, 0) / rust_decimal::Decimal::from_i128_with_scale(80, 0)
    );
}

#[test]
fn checksum_covers_interleaved_levels() {
    let b = book();
    let text = "100.0:1.0:101.0:1.0:99.5:2.0:101.5:2.0:99.0:3.0:102.0:5.0";
    let crc = crc32fast::hash(text.as_bytes());
    assert!(b.verify_checksum(crc));
    assert!(!b.verify_checksum(crc.wrapping_add(1)));
    let empty = Orderbook::new("X".to_string());
    assert!(empty.verify_checksum(crc32fast::hash(b"")));
}

#[test]
fn checksum_writes_fractions_as_they_are() {
    let mut b = Orderbook::new("X".to_string());
    b.update(&data(OrderbookAction::Partial, vec![(d(12345, 3), d(5, 1))], vec![(d(200, 2), d(25, 2))]));
    let crc = crc32fast::hash("12.345:0.5:2.0:0.25".as_bytes());
    assert!(b.verify_checksum(crc));
}

#[test]
fn decimal_tests() {
    assert!(d(0, 5).is_zero());
    assert!(!d(1, 5).is_zero());
    assert!(d(3, 0).is_positive());
    assert!(!d(-3, 0).is_positive());
    assert!(d(300, 2).is_whole());
    assert!(d(-300, 2).is_whole());
    assert!(!d(301, 2).is_whole());
    assert_eq!(Dec::zero(), d(0, 0));
}
