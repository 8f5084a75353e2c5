use marketdata::event::{Event, EventKind};

fn depth_row() -> Event {
    Event {
        local_unique_id: 1_700_000_000_123_456_789,
        venue_timestamp: 1_732_600_200_000,
        gate_timestamp: 1_732_600_200_015,
        event_type: EventKind::Depth,
        product: "BTCUSDT".to_string(),
        id1: Some(101),
        id2: Some(102),
        ask_not_bid: Some(true),
        buy_not_sell: None,
        price: "10.50000000".to_string(),
        quantity: "0.00000000".to_string(),
    }
}

fn trade_row() -> Event {
    Event {
        local_unique_id: -5,
        venue_timestamp: 0,
        gate_timestamp: i64::MAX,
        event_type: EventKind::Trade,
        product: "ÉTHÜSD".to_string(),
        id1: Some(u64::MAX),
        id2: None,
        ask_not_bid: None,
        buy_not_sell: Some(false),
        price: "".to_string(),
        quantity: "1".to_string(),
    }
}

fn same(a: &Event, b: &Event) -> bool {
    a.local_unique_id == b.local_unique_id
        && a.venue_timestamp == b.venue_timestamp
        && a.gate_timestamp == b.gate_timestamp
        && a.event_type == b.event_type
        && a.product == b.product
        && a.id1 == b.id1
        && a.id2 == b.id2
        && a.ask_not_bid == b.ask_not_bid
        && a.buy_not_sell == b.buy_not_sell
        && a.price == b.price
        && a.quantity == b.quantity
}

#[test]
fn decode_of_encode_gives_event_back() {
    for e in [depth_row(), trade_row()] {
        let bytes = e.as_bytes();
        let (d, n) = Event::from_bytes(&bytes).unwrap();
        assert_eq!(n, bytes.len());
        assert!(same(&d, &e));
    }
}

#[test]
fn records_follow_one_another() {
    let mut file = depth_row().as_bytes();
    file.extend(trade_row().as_bytes());
    let (a, n) = Event::from_bytes(&file).unwrap();
    assert!(same(&a, &depth_row()));
    let (b, m) = Event::from_bytes(&file[n..]).unwrap();
    assert!(same(&b, &trade_row()));
    assert_eq!(n + m, file.len());
}

#[test]
fn encoding_matches_bincode_layout() {
    let e = depth_row();
    let expected = bincode::serialize(&(
        e.local_unique_id,
        e.venue_timestamp,
        e.gate_timestamp,
        "depth".to_string(),
        e.product.clone(),
        e.id1,
        e.id2,
        e.ask_not_bid,
        e.buy_not_sell,
        e.price.clone(),
        e.quantity.clone(),
    ))
    .unwrap();
    assert_eq!(e.as_bytes(), expected);
    let t = trade_row();
    let expected = bincode::serialize(&(
        t.local_unique_id,
        t.venue_timestamp,
        t.gate_timestamp,
        "trade".to_string(),
        t.product.clone(),
        t.id1,
        t.id2,
        t.ask_not_bid,
        t.buy_not_sell,
        t.price.clone(),
        t.quantity.clone(),
    ))
    .unwrap();
    assert_eq!(t.as_bytes(), expected);
}

#[test]
fn truncated_or_malformed_records_are_refused() {
    let bytes = depth_row().as_bytes();
    for cut in 0..bytes.len() {
        assert!(Event::from_bytes(&bytes[..cut]).is_none());
    }
    let mut bad_tag = bytes.clone();
    // the tag of id1 follows 3 * 8 bytes of timestamps, "depth" and "BTCUSDT"
    let tag = 24 + 8 + 5 + 8 + 7;
    assert_eq!(bad_tag[tag], 1);
    bad_tag[tag] = 2;
    assert!(Event::from_bytes(&bad_tag).is_none());
    let mut bad_kind = bytes.clone();
    bad_kind[24 + 8] = b'x';
    assert!(Event::from_bytes(&bad_kind).is_none());
}

#[test]
fn invalid_utf8_string_is_refused() {
    let mut bytes = depth_row().as_bytes();
    // first byte of the product name
    let at = 24 + 8 + 5 + 8;
    assert_eq!(bytes[at], b'B');
    bytes[at] = 0xff;
    assert!(Event::from_bytes(&bytes).is_none());
}

#[test]
fn snapshot_kind_round_trips() {
    let mut e = depth_row();
    e.event_type = EventKind::Snapshot;
    e.id2 = None;
    let (d, _) = Event::from_bytes(&e.as_bytes()).unwrap();
    assert!(same(&d, &e));
}
