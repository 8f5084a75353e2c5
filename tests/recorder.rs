use marketdata::depth::Depth;
use marketdata::event::{Event, EventKind};
use marketdata::recorder::{depth_rows, extract_data, snapshot_rows, split_snapshot, trade_row, Stamper};
use marketdata::snapshot::Snapshot;
use marketdata::trade::Trade;

fn pair(p: &str, q: &str) -> (String, String) {
    (p.to_string(), q.to_string())
}

fn depth() -> Depth {
    Depth {
        event_time: 1000,
        symbol: "BNBBTC".to_string(),
        first_update_id: 157,
        last_update_id: 160,
        bids: vec![pair("0.0024", "10")],
        asks: vec![pair("0.0026", "100"), pair("0.0027", "0")],
    }
}

#[test]
fn envelope_is_unwrapped() {
    let msg = r#"{"stream":"bnbbtc@depth@100ms","data":{"e":"depthUpdate","E":1}}"#;
    assert_eq!(extract_data(msg), Some(r#"{"e":"depthUpdate","E":1}"#));
    assert_eq!(extract_data(r#"{"stream":"x"}"#), None);
}

#[test]
fn snapshot_frame_is_split() {
    let raw = r#"BNBBTC@snapshot{"lastUpdateId":1,"bids":[],"asks":[]}"#;
    assert_eq!(split_snapshot(raw), Some(("BNBBTC", r#"{"lastUpdateId":1,"bids":[],"asks":[]}"#)));
    assert_eq!(split_snapshot("BNBBTC{}"), None);
}

#[test]
fn depth_fans_out_bids_then_asks() {
    let d = depth();
    let mut it = d.iter();
    let a = it.next().unwrap();
    assert_eq!((a.price(), a.ask_not_bid()), ("0.0024".to_string(), false));
    let b = it.next().unwrap();
    assert_eq!((b.price(), b.quantity(), b.ask_not_bid()), ("0.0026".to_string(), "100".to_string(), true));
    assert_eq!((b.event_time(), b.symbol(), b.first_update_id(), b.last_update_id()), (1000, "BNBBTC".to_string(), 157, 160));
    assert!(it.next().unwrap().ask_not_bid());
    assert!(it.next().is_none());
    assert_eq!(d.items().len(), 3);
}

#[test]
fn snapshot_fans_out_bids_then_asks() {
    let s = Snapshot { last_update_id: 77, bids: vec![pair("1", "2"), pair("0.9", "1")], asks: vec![pair("1.1", "5")] };
    let items = s.items();
    assert_eq!(items.len(), 3);
    assert_eq!(items[1].price(), "0.9");
    assert!(!items[1].ask_not_bid());
    assert!(items[2].ask_not_bid());
    assert_eq!(items[2].last_update_id(), 77);
    let mut it = s.iter();
    assert_eq!(it.next().unwrap().quantity(), "2");
}

#[test]
fn local_ids_strictly_increase_even_when_clock_stalls() {
    let mut st = Stamper::new();
    let d = depth();
    let rows = depth_rows(&mut st, &d, 5000, &vec![10, 10, 9]);
    let ids: Vec<i64> = rows.iter().map(|r| r.local_unique_id).collect();
    assert_eq!(ids, vec![10, 11, 12]);
    assert!(rows.iter().all(|r| r.gate_timestamp == 5000 && r.event_type == EventKind::Depth));
    assert_eq!(rows[0].id1, Some(157));
    assert_eq!(rows[0].id2, Some(160));
    assert_eq!(rows[0].ask_not_bid, Some(false));
    assert_eq!(rows[2].quantity, "0");
    let s = Snapshot { last_update_id: 9, bids: vec![], asks: vec![pair("2", "1")] };
    let srows = snapshot_rows(&mut st, &s, "BNBBTC", 6000, &vec![50]);
    assert_eq!(srows[0].local_unique_id, 50);
    assert_eq!(srows[0].venue_timestamp, 6000);
    assert_eq!(srows[0].id1, Some(9));
    let t = Trade {
        event_time: 7,
        symbol: "BNBBTC".to_string(),
        trade_id: 12345,
        price: "0.001".to_string(),
        quantity: "100".to_string(),
        market_maker: true,
    };
    let row: Event = trade_row(&mut st, t, 6001, 40);
    assert_eq!(row.local_unique_id, 51);
    assert_eq!(row.id1, Some(12345));
    assert_eq!(row.buy_not_sell, Some(true));
    assert_eq!(row.ask_not_bid, None);
    assert_eq!(st.stamp(1000), 1000);
}
