use marketdata::book::{Level, LevelUpdate, Orderbook};
use marketdata::decimal::parse_units;

const UNIT: u64 = 100_000_000;

fn lvl(price: u64, quantity: u64, ask: bool) -> LevelUpdate {
    LevelUpdate { price, quantity, ask_not_bid: ask }
}

fn units(s: &str) -> u64 {
    parse_units(s).unwrap()
}

/// Snapshot id 100: bids 10.0 x1, 9.5 x2; asks 10.5 x1, 11.0 x3.
fn bootstrap() -> Orderbook {
    let mut b = Orderbook::new();
    let levels = vec![
        lvl(units("10.0"), units("1"), false),
        lvl(units("9.5"), units("2"), false),
        lvl(units("10.5"), units("1"), true),
        lvl(units("11.0"), units("3"), true),
    ];
    b.apply_snapshot(100, &levels);
    b
}

#[test]
fn snapshot_bootstrap_best_prices() {
    let b = bootstrap();
    assert_eq!(b.pbest(), Some(1_050_000_000));
    // 10.5 * 1 + 11.0 * 1 = 21.5, in units of 10^-16
    assert_eq!(b.best_total_price(2 * UNIT), Some(215_000_000_000_000_000));
    assert_eq!(b.last_update_id, 100);
    assert_eq!(b.bids, vec![Level { price: 1_000_000_000, quantity: UNIT }, Level { price: 950_000_000, quantity: 2 * UNIT }]);
}

#[test]
fn stale_diff_is_discarded() {
    let mut b = bootstrap();
    b.apply_diff(100, &vec![lvl(units("10.5"), 0, true)]);
    assert_eq!(b.pbest(), Some(1_050_000_000));
    assert_eq!(b.last_update_id, 100);
    b.apply_diff(102, &vec![lvl(units("10.5"), 0, true)]);
    assert_eq!(b.pbest(), Some(1_100_000_000));
    assert_eq!(b.last_update_id, 102);
}

#[test]
fn trade_consumes_best_ask_level() {
    let mut b = bootstrap();
    b.apply_trade(units("10.5"), units("1"));
    assert_eq!(b.asks, vec![Level { price: 1_100_000_000, quantity: 3 * UNIT }]);
    assert_eq!(b.best_total_price(2 * UNIT), Some(220_000_000_000_000_000));
}

#[test]
fn trade_below_best_ask_consumes_bids() {
    let mut b = bootstrap();
    b.apply_trade(units("10.0"), units("1.5"));
    assert_eq!(b.bids, vec![Level { price: 950_000_000, quantity: UNIT + UNIT / 2 }]);
    assert_eq!(b.asks.len(), 2);
}

#[test]
fn trade_larger_than_asks_empties_them() {
    let mut b = bootstrap();
    assert_eq!(b.best_total_price(5 * UNIT), None);
    b.apply_trade(units("11.0"), 5 * UNIT);
    assert!(b.asks.is_empty());
    assert_eq!(b.pbest(), None);
    assert_eq!(b.best_total_price(UNIT), None);
    assert_eq!(b.bids.len(), 2);
}

#[test]
fn trade_on_book_without_asks_changes_nothing() {
    let mut b = Orderbook::new();
    b.apply_level(lvl(UNIT, UNIT, false));
    b.apply_trade(UNIT, UNIT);
    assert_eq!(b.bids, vec![Level { price: UNIT, quantity: UNIT }]);
}

#[test]
fn diff_on_empty_side_creates_level() {
    let mut b = Orderbook::new();
    b.apply_diff(5, &vec![lvl(units("3.25"), units("0.5"), true)]);
    assert_eq!(b.asks, vec![Level { price: 325_000_000, quantity: 50_000_000 }]);
    assert!(b.bids.is_empty());
    assert_eq!(b.last_update_id, 5);
}

#[test]
fn zero_quantity_removes_level() {
    let mut b = bootstrap();
    b.apply_diff(101, &vec![lvl(units("9.5"), 0, false)]);
    assert_eq!(b.bids, vec![Level { price: 1_000_000_000, quantity: UNIT }]);
    // removing a level that is not there changes nothing
    b.apply_diff(102, &vec![lvl(units("9.75"), 0, false)]);
    assert_eq!(b.bids.len(), 1);
}

#[test]
fn diff_keeps_sides_sorted() {
    let mut b = bootstrap();
    b.apply_diff(101, &vec![lvl(units("10.25"), 7, true), lvl(units("9.75"), 4, false), lvl(units("12"), 1, true)]);
    let asks: Vec<u64> = b.asks.iter().map(|l| l.price).collect();
    let bids: Vec<u64> = b.bids.iter().map(|l| l.price).collect();
    assert_eq!(asks, vec![1_025_000_000, 1_050_000_000, 1_100_000_000, 1_200_000_000]);
    assert_eq!(bids, vec![1_000_000_000, 975_000_000, 950_000_000]);
}

#[test]
fn later_update_of_same_price_wins() {
    let mut b = Orderbook::new();
    b.apply_diff(1, &vec![lvl(UNIT, 3, true), lvl(UNIT, 9, true)]);
    assert_eq!(b.asks, vec![Level { price: UNIT, quantity: 9 }]);
}

#[test]
fn snapshot_replaces_populated_book() {
    let mut b = bootstrap();
    b.apply_diff(150, &vec![lvl(units("8"), UNIT, false)]);
    b.apply_snapshot(120, &vec![lvl(units("20"), UNIT, true)]);
    assert!(b.bids.is_empty());
    assert_eq!(b.asks, vec![Level { price: 20 * UNIT, quantity: UNIT }]);
    assert_eq!(b.last_update_id, 120);
}

#[test]
fn equal_snapshots_give_equal_books() {
    let levels = vec![lvl(units("10.0"), units("1"), false), lvl(units("10.5"), units("1"), true)];
    let mut a = Orderbook::new();
    a.apply_diff(7, &vec![lvl(units("1"), 1, false), lvl(units("99"), 1, true)]);
    a.apply_snapshot(100, &levels);
    let mut b = bootstrap();
    b.apply_snapshot(100, &levels);
    assert_eq!(a.asks, b.asks);
    assert_eq!(a.bids, b.bids);
    assert_eq!(a.last_update_id, b.last_update_id);
}

#[test]
fn same_events_rebuild_same_book() {
    let run = || {
        let mut b = bootstrap();
        b.apply_diff(101, &vec![lvl(units("10.25"), 7, true), lvl(units("10.0"), 0, false)]);
        b.apply_trade(units("10.3"), 3);
        b.apply_diff(103, &vec![lvl(units("9.9"), 5, false)]);
        (b.bids, b.asks, b.last_update_id)
    };
    assert_eq!(run(), run());
}

#[test]
fn total_price_is_monotone_and_clamped() {
    let b = bootstrap();
    let mut prev = 0u128;
    for q in [0u64, UNIT / 2, UNIT, UNIT + 1, 2 * UNIT, 4 * UNIT] {
        let c = b.best_total_price(q).unwrap();
        assert!(c >= prev);
        prev = c;
    }
    // 10.5 * 0.5
    assert_eq!(b.best_total_price(UNIT / 2), Some(525_000_000_000_000_000 / 10));
    // 10.5 * 1 + 11.0 * 3: the whole ask side
    assert_eq!(b.best_total_price(4 * UNIT), Some(435_000_000_000_000_000));
    assert_eq!(b.best_total_price(4 * UNIT + 1), None);
    assert_eq!(b.best_total_price(0), Some(0));
}

#[test]
fn parse_units_reads_decimals() {
    assert_eq!(parse_units("10.5"), Some(1_050_000_000));
    assert_eq!(parse_units("0.00000001"), Some(1));
    assert_eq!(parse_units("0.000000010"), Some(1));
    assert_eq!(parse_units("3"), Some(300_000_000));
    assert_eq!(parse_units("1e2"), Some(10_000_000_000));
    assert_eq!(parse_units("0.000000001"), None);
    assert_eq!(parse_units("-1"), None);
    assert_eq!(parse_units("abc"), None);
    assert_eq!(parse_units(""), None);
    assert_eq!(parse_units("184467440737.09551615"), Some(u64::MAX));
    assert_eq!(parse_units("184467440737.09551616"), None);
}

#[test]
fn book_stays_uncrossed_through_updates() {
    let mut b = Orderbook::default();
    assert!(b.asks.is_empty() && b.bids.is_empty());
    b.apply_snapshot(1, &vec![lvl(100, 5, false), lvl(90, 5, false), lvl(110, 5, true), lvl(120, 5, true)]);
    b.apply_diff(2, &vec![lvl(105, 3, false), lvl(108, 2, true), lvl(110, 0, true)]);
    b.apply_trade(108, 4);
    b.apply_trade(100, 7);
    for x in b.bids.iter() {
        for y in b.asks.iter() {
            assert!(x.price < y.price);
        }
    }
    assert_eq!(b.asks, vec![Level { price: 120, quantity: 3 }]);
    assert_eq!(b.bids, vec![Level { price: 100, quantity: 1 }, Level { price: 90, quantity: 5 }]);
}
