//! The persisted event record and the raw frames it is decoded from.
use vstd::prelude::*;
use crate::depth::DepthItem;
use crate::snapshot::SnapshotItem;
use crate::trade::Trade;

verus! {

/// A frame as it arrives: a trade or depth message of the combined stream,
/// or a snapshot response written `SYMBOL@snapshot{json}`.
pub enum RawEvent {
    RawTrade(String),
    RawDepth(String),
    RawSnapshot(String),
}

/// The kind of a persisted event.
#[derive(Clone, Copy, PartialEq, Eq, Structural, Debug)]
pub enum EventKind {
    Trade,
    Depth,
    Snapshot,
}

/// One persisted row. Depth and snapshot messages fan out into one row per
/// price level, each carrying the message's ids.
pub struct Event {
    pub local_unique_id: i64,
    pub venue_timestamp: i64,
    pub gate_timestamp: i64,
    pub event_type: EventKind,
    pub product: String,
    pub id1: Option<u64>,
    pub id2: Option<u64>,
    pub ask_not_bid: Option<bool>,
    pub buy_not_sell: Option<bool>,
    pub price: String,
    pub quantity: String,
}

/// What an `Event` holds, with its strings as character sequences.
pub struct EventView {
    pub local_unique_id: i64,
    pub venue_timestamp: i64,
    pub gate_timestamp: i64,
    pub event_type: EventKind,
    pub product: Seq<char>,
    pub id1: Option<u64>,
    pub id2: Option<u64>,
    pub ask_not_bid: Option<bool>,
    pub buy_not_sell: Option<bool>,
    pub price: Seq<char>,
    pub quantity: Seq<char>,
}

impl View for Event {
    type V = EventView;

    open spec fn view(&self) -> EventView {
        EventView {
            local_unique_id: self.local_unique_id,
            venue_timestamp: self.venue_timestamp,
            gate_timestamp: self.gate_timestamp,
            event_type: self.event_type,
            product: self.product@,
            id1: self.id1,
            id2: self.id2,
            ask_not_bid: self.ask_not_bid,
            buy_not_sell: self.buy_not_sell,
            price: self.price@,
            quantity: self.quantity@,
        }
    }
}

impl Event {
    /// The row of a trade, stamped with its local id and gate timestamp.
    pub fn from_trade(trade: Trade, local_unique_id: i64, timestamp: i64) -> (r: Event)
        ensures
            r@ == (EventView {
                local_unique_id,
                venue_timestamp: trade.event_time,
                gate_timestamp: timestamp,
                event_type: EventKind::Trade,
                product: trade.symbol@,
                id1: Some(trade.trade_id),
                id2: None,
                ask_not_bid: None,
                buy_not_sell: Some(trade.market_maker),
                price: trade.price@,
                quantity: trade.quantity@,
            }),
    {
        Event {
            local_unique_id,
            venue_timestamp: trade.event_time(),
            gate_timestamp: timestamp,
            event_type: EventKind::Trade,
            product: trade.symbol(),
            id1: Some(trade.trade_id()),
            id2: None,
            ask_not_bid: None,
            buy_not_sell: Some(trade.market_maker()),
            price: trade.price(),
            quantity: trade.quantity(),
        }
    }

    /// The row of one depth level, stamped with its local id and gate
    /// timestamp.
    pub fn from_depth_item(depth_item: DepthItem, local_unique_id: i64, timestamp: i64) -> (r: Event)
        ensures
            r@ == (EventView {
                local_unique_id,
                venue_timestamp: depth_item.event_time,
                gate_timestamp: timestamp,
                event_type: EventKind::Depth,
                product: depth_item.symbol@,
                id1: Some(depth_item.first_update_id),
                id2: Some(depth_item.last_update_id),
                ask_not_bid: Some(depth_item.ask_not_bid),
                buy_not_sell: None,
                price: depth_item.price@,
                quantity: depth_item.quantity@,
            }),
    {
        Event {
            local_unique_id,
            venue_timestamp: depth_item.event_time(),
            gate_timestamp: timestamp,
            event_type: EventKind::Depth,
            product: depth_item.symbol(),
            id1: Some(depth_item.first_update_id()),
            id2: Some(depth_item.last_update_id()),
            ask_not_bid: Some(depth_item.ask_not_bid()),
            buy_not_sell: None,
            price: depth_item.price(),
            quantity: depth_item.quantity(),
        }
    }

    /// The row of one snapshot level for `symbol`. A snapshot has no venue
    /// time of its own: the row carries `timestamp` in both time fields.
    pub fn from_snapshot_item(snapshot_item: SnapshotItem, symbol: &str, local_unique_id: i64, timestamp: i64) -> (r: Event)
        ensures
            r@ == (EventView {
                local_unique_id,
                venue_timestamp: timestamp,
                gate_timestamp: timestamp,
                event_type: EventKind::Snapshot,
                product: symbol@,
                id1: Some(snapshot_item.last_update_id),
                id2: None,
                ask_not_bid: Some(snapshot_item.ask_not_bid),
                buy_not_sell: None,
                price: snapshot_item.price@,
                quantity: snapshot_item.quantity@,
            }),
    {
        Event {
            local_unique_id,
            venue_timestamp: timestamp,
            gate_timestamp: timestamp,
            event_type: EventKind::Snapshot,
            product: symbol.to_owned(),
            id1: Some(snapshot_item.last_update_id()),
            id2: None,
            ask_not_bid: Some(snapshot_item.ask_not_bid()),
            buy_not_sell: None,
            price: snapshot_item.price(),
            quantity: snapshot_item.quantity(),
        }
    }

    /// A copy of the row.
    pub fn duplicate(&self) -> (r: Event)
        ensures
            r@ == self@,
    {
        Event {
            local_unique_id: self.local_unique_id,
            venue_timestamp: self.venue_timestamp,
            gate_timestamp: self.gate_timestamp,
            event_type: self.event_type,
            product: self.product.clone(),
            id1: self.id1,
            id2: self.id2,
            ask_not_bid: self.ask_not_bid,
            buy_not_sell: self.buy_not_sell,
            price: self.price.clone(),
            quantity: self.quantity.clone(),
        }
    }
}

} // verus!
