use marketdata::event::RawEvent;
use marketdata::pacer::{ExchangeInfo, Pacer, SnapshotInfo, SNAPSHOT_WEIGHT};
use marketdata::provider::{DataProvider, Pull, WINDOW_MS};
use marketdata::stream::{classify, on_frame, should_close, stream_urls, Frame, Reply};
use marketdata::event::{Event, EventKind};

#[test]
fn urls_group_symbols() {
    let base = "wss://stream.binance.com:9443/stream?streams=";
    let syms: Vec<String> = vec!["btcusdt".to_string(), "ethusdt".to_string()];
    let urls = stream_urls(base, &syms);
    assert_eq!(urls, vec![format!("{base}btcusdt@trade/btcusdt@depth@100ms/ethusdt@trade/ethusdt@depth@100ms")]);
    let many: Vec<String> = (0..601).map(|i| format!("s{i}")).collect();
    let urls = stream_urls(base, &many);
    assert_eq!(urls.len(), 3);
    assert!(urls[1].starts_with(&format!("{base}s300@trade/")));
    assert!(urls[2].ends_with("s600@trade/s600@depth@100ms"));
    assert_eq!(urls[0].matches("@trade").count(), 300);
    assert!(stream_urls(base, &vec![]).is_empty());
}

#[test]
fn frames_are_classified() {
    match classify(r#"{"stream":"btcusdt@trade","data":{}}"#.to_string()) {
        Some(RawEvent::RawTrade(t)) => assert!(t.contains("@trade")),
        _ => panic!("trade frame"),
    }
    match classify(r#"{"stream":"btcusdt@depth@100ms","data":{}}"#.to_string()) {
        Some(RawEvent::RawDepth(_)) => {},
        _ => panic!("depth frame"),
    }
    assert!(classify("{}".to_string()).is_none());
    match on_frame(Frame::Ping(vec![1, 2, 3])) {
        Reply::Pong(p) => assert_eq!(p, vec![1, 2, 3]),
        _ => panic!("pong"),
    }
    assert!(matches!(on_frame(Frame::Other), Reply::Drop));
    assert!(matches!(on_frame(Frame::Text("hello".to_string())), Reply::Drop));
}

#[test]
fn connections_overlap_for_grace_period() {
    assert!(!should_close(43200));
    assert!(!should_close(43259));
    assert!(should_close(43260));
}

#[test]
fn pacing_waits_before_limit() {
    let info = ExchangeInfo::new(1200);
    assert_eq!(info.weight, 20);
    let mut p = Pacer::new(&info);
    for _ in 0..3 {
        assert!(!p.after_snapshot(SNAPSHOT_WEIGHT));
    }
    assert_eq!(p.weight, 770);
    // 1020 spent: one more request would reach 1270
    assert!(p.after_snapshot(SNAPSHOT_WEIGHT));
    assert_eq!(p.weight, 0);
    assert_eq!(p.end_round(), 3540);
    assert_eq!(p.time_left, 3600);
    let s = SnapshotInfo::new("btcusdt", "{}");
    assert_eq!(s.weight, 250);
    match s.raw_snapshot {
        RawEvent::RawSnapshot(r) => assert_eq!(r, "BTCUSDT@snapshot{}"),
        _ => panic!("snapshot"),
    }
    match SnapshotInfo::from_upper("ethusdt", "[]").raw_snapshot {
        RawEvent::RawSnapshot(r) => assert_eq!(r, "ethusdt@snapshot[]"),
        _ => panic!("snapshot"),
    }
}

fn ev(i: i64) -> Event {
    Event {
        local_unique_id: i,
        venue_timestamp: i,
        gate_timestamp: i,
        event_type: EventKind::Trade,
        product: "X".to_string(),
        id1: None,
        id2: None,
        ask_not_bid: None,
        buy_not_sell: None,
        price: "1".to_string(),
        quantity: "1".to_string(),
    }
}

#[test]
fn provider_pages_by_window() {
    let mut d = DataProvider::new("BTCUSDT".to_string(), "t".to_string(), 1000);
    match d.next() {
        Pull::Fetch { from_ms, to_ms } => assert_eq!((from_ms, to_ms), (1000, 1000 + WINDOW_MS)),
        _ => panic!("fetch"),
    }
    d.load(vec![ev(1), ev(2)]);
    assert!(matches!(d.next(), Pull::Row(e) if e.local_unique_id == 1));
    assert!(matches!(d.next(), Pull::Row(e) if e.local_unique_id == 2));
    assert!(matches!(d.next(), Pull::Fetch { from_ms: 301000, .. }));
    d.load(vec![]);
    assert!(matches!(d.next(), Pull::End));
    assert_eq!(d.product(), "BTCUSDT");
}
