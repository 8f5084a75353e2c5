use marketdata::book::{BookError, Level};
use marketdata::event::{Event, EventKind};
use marketdata::player::{MarketdataPlayer, Outcome, Record};

const UNIT: u64 = 100_000_000;

fn row(kind: EventKind, venue: i64, id1: Option<u64>, id2: Option<u64>, ask: Option<bool>, price: &str, qty: &str) -> Event {
    Event {
        local_unique_id: 0,
        venue_timestamp: venue,
        gate_timestamp: venue,
        event_type: kind,
        product: "BTCUSDT".to_string(),
        id1,
        id2,
        ask_not_bid: ask,
        buy_not_sell: None,
        price: price.to_string(),
        quantity: qty.to_string(),
    }
}

fn snap(id: u64, ask: bool, price: &str, qty: &str) -> Event {
    row(EventKind::Snapshot, 1, Some(id), None, Some(ask), price, qty)
}

fn depth(venue: i64, id2: u64, ask: bool, price: &str, qty: &str) -> Event {
    row(EventKind::Depth, venue, Some(id2 - 1), Some(id2), Some(ask), price, qty)
}

fn trade(venue: i64, price: &str, qty: &str) -> Event {
    row(EventKind::Trade, venue, Some(1), None, None, price, qty)
}

const NOTHING: Outcome = Outcome { evaluate: false, emit: None, reset: None, observe: None };

fn bootstrapped() -> MarketdataPlayer {
    let mut p = MarketdataPlayer::new(2 * UNIT);
    for e in [snap(100, false, "10.0", "1"), snap(100, false, "9.5", "2"), snap(100, true, "10.5", "1"), snap(100, true, "11.0", "3")] {
        assert_eq!(p.step(&e, true), Ok(NOTHING));
    }
    p
}

#[test]
fn rows_before_first_snapshot_are_skipped() {
    let mut p = MarketdataPlayer::new(UNIT);
    assert_eq!(p.step(&depth(5, 3, true, "1", "1"), true), Ok(NOTHING));
    assert_eq!(p.step(&trade(6, "1", "1"), true), Ok(NOTHING));
    assert!(!p.bootstrapped);
    assert!(p.book.asks.is_empty());
}

#[test]
fn replay_measures_and_emits() {
    let mut p = bootstrapped();
    assert_eq!(p.book.best_total_price(2 * UNIT), Some(215_000_000_000_000_000));
    // a stale diff right after the snapshot: the model is reset, the book kept
    let o = p.step(&depth(10, 100, true, "10.5", "0"), true).unwrap();
    assert_eq!(o, Outcome { evaluate: false, emit: None, reset: Some(Some(1_050_000_000)), observe: None });
    assert_eq!(p.book.asks.len(), 2);
    // a newer diff removes the best ask
    assert_eq!(p.step(&depth(20, 102, true, "10.5", "0"), true), Ok(NOTHING));
    assert_eq!(p.book.pbest(), Some(1_100_000_000));
    // a trade after depth: realised price of 2 at 11.0
    let o = p.step(&trade(50, "11.0", "1"), true).unwrap();
    let rec = Record { best_player_price: None, real_price: Some(220_000_000_000_000_000), delta_execution: 0 };
    assert_eq!(o, Outcome { evaluate: false, emit: Some(rec), reset: Some(Some(1_100_000_000)), observe: Some(30) });
    assert_eq!(p.book.asks, vec![Level { price: 1_100_000_000, quantity: 2 * UNIT }]);
    // a depth row after the trade: candidate price and evaluation
    let o = p.step(&depth(80, 103, true, "12.0", "1"), true).unwrap();
    assert_eq!(o, Outcome { evaluate: true, emit: None, reset: None, observe: None });
    assert_eq!(p.best_player_price, Some(220_000_000_000_000_000));
    assert_eq!(p.delta_execution, 30);
    // the same realised price is not emitted twice
    let o = p.step(&trade(90, "11.0", "1"), true).unwrap();
    assert_eq!(o.emit, None);
    assert_eq!(o.reset, Some(Some(1_100_000_000)));
    // a trade after a trade is only observed
    let o = p.step(&trade(95, "11.0", "0.5"), true).unwrap();
    assert_eq!(o, Outcome { evaluate: false, emit: None, reset: None, observe: Some(5) });
}

#[test]
fn no_record_without_finite_interval() {
    let mut p = bootstrapped();
    p.step(&depth(20, 102, true, "10.5", "0"), true).unwrap();
    let o = p.step(&trade(50, "11.0", "1"), false).unwrap();
    assert_eq!(o.emit, None);
    assert_eq!(p.last_emitted, None);
}

#[test]
fn redelivered_snapshot_replaces_book() {
    let mut p = bootstrapped();
    p.step(&depth(20, 102, false, "9.0", "4"), true).unwrap();
    assert_eq!(p.book.bids.len(), 3);
    // the bootstrap snapshot delivered again replaces the book
    let o = p.step(&snap(100, true, "30", "1"), true).unwrap();
    assert_eq!(o.reset, Some(Some(30 * UNIT)));
    assert!(p.book.bids.is_empty());
    assert_eq!(p.book.last_update_id, 100);
    p.step(&snap(100, false, "29", "1"), true).unwrap();
    assert_eq!(p.book.bids, vec![Level { price: 29 * UNIT, quantity: UNIT }]);
    // a snapshot with another id does not reach the book
    p.step(&snap(250, true, "1", "1"), true).unwrap();
    assert_eq!(p.book.pbest(), Some(30 * UNIT));
    assert_eq!(p.snapshot_id, Some(100));
}

#[test]
fn unfillable_realised_price_is_emitted_as_absent() {
    let mut p = MarketdataPlayer::new(10 * UNIT);
    p.step(&snap(100, true, "10.5", "1"), true).unwrap();
    p.step(&depth(20, 102, true, "11", "1"), true).unwrap();
    let o = p.step(&trade(30, "10.5", "1"), true).unwrap();
    assert_eq!(o.emit, Some(Record { best_player_price: None, real_price: None, delta_execution: 0 }));
}

#[test]
fn unreadable_rows_are_errors() {
    let mut p = bootstrapped();
    assert_eq!(p.step(&depth(20, 102, true, "x", "1"), true), Err(BookError::InvalidPrice));
    assert_eq!(p.step(&depth(20, 102, true, "1", "-2"), true), Err(BookError::QuantityOutOfRange));
    assert_eq!(p.step(&depth(20, 102, true, "1", "1x"), true), Err(BookError::InvalidQuantity));
    assert_eq!(p.step(&depth(20, 102, true, "0.000000001", "1"), true), Err(BookError::PriceOutOfRange));
    assert_eq!(
        p.step(&row(EventKind::Depth, 20, None, Some(102), None, "1", "1"), true),
        Err(BookError::MissingSide)
    );
    assert_eq!(p.step(&row(EventKind::Depth, 20, None, None, Some(true), "1", "1"), true), Err(BookError::MissingId));
    assert_eq!(p.book.asks.len(), 2);
}

#[test]
fn book_update_reports_errors() {
    let mut p = bootstrapped();
    assert_eq!(p.book.update(&depth(1, 101, true, "10.5", "0")), Ok(()));
    assert_eq!(p.book.pbest(), Some(1_100_000_000));
    assert_eq!(p.book.update(&trade(1, "11", "1")), Err(BookError::NotALevel));
    assert_eq!(p.book.handle_trade(&trade(1, "nan", "1")), Err(BookError::InvalidPrice));
    assert_eq!(p.book.handle_trade(&trade(1, "11", "1")), Ok(()));
    assert_eq!(p.book.asks[0].quantity, 2 * UNIT);
}

fn rows_of_snapshot(b: &mut marketdata::book::Orderbook) {
    for e in [snap(100, false, "10.0", "1"), snap(100, false, "9.5", "2"), snap(100, true, "10.5", "1"), snap(100, true, "11.0", "3")] {
        assert_eq!(b.update(&e), Ok(()));
    }
}

#[test]
fn update_sequences_diffs() {
    let mut b = marketdata::book::Orderbook::default();
    rows_of_snapshot(&mut b);
    assert_eq!(b.last_update_id, 100);
    assert_eq!(b.update(&depth(5, 100, true, "10.5", "0")), Ok(()));
    assert_eq!(b.pbest(), Some(1_050_000_000));
    assert_eq!(b.last_update_id, 100);
    assert_eq!(b.update(&depth(6, 102, true, "10.5", "0")), Ok(()));
    assert_eq!(b.pbest(), Some(1_100_000_000));
    assert_eq!(b.last_update_id, 102);
    assert_eq!(b.bids, vec![Level { price: 1_000_000_000, quantity: UNIT }, Level { price: 950_000_000, quantity: 2 * UNIT }]);
    // a second row of the same diff is applied too
    assert_eq!(b.update(&depth(6, 102, false, "9.5", "0")), Ok(()));
    assert_eq!(b.bids.len(), 1);
}

#[test]
fn update_snapshot_rows_replace_book() {
    let mut a = marketdata::book::Orderbook::default();
    let mut b = marketdata::book::Orderbook::default();
    b.update(&snap(7, true, "50", "1")).unwrap();
    b.update(&depth(9, 200, false, "3", "1")).unwrap();
    rows_of_snapshot(&mut a);
    rows_of_snapshot(&mut b);
    assert_eq!(a.asks, b.asks);
    assert_eq!(a.bids, b.bids);
    assert_eq!(a.last_update_id, b.last_update_id);
    assert_eq!(b.last_update_id, 100);
}
