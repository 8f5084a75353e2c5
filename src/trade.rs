//! Trades as the exchange's trade stream reports them.
use vstd::prelude::*;

verus! {

/// A trade: event time, symbol, trade id, price and quantity as decimal
/// strings, and whether the buyer was the market maker.
pub struct Trade {
    pub event_time: i64,
    pub symbol: String,
    pub trade_id: u64,
    pub price: String,
    pub quantity: String,
    pub market_maker: bool,
}

impl Trade {
    pub fn event_time(&self) -> (r: i64)
        ensures
            r == self.event_time,
    {
        self.event_time
    }

    pub fn symbol(&self) -> (r: String)
        ensures
            r@ == self.symbol@,
    {
        self.symbol.clone()
    }

    pub fn trade_id(&self) -> (r: u64)
        ensures
            r == self.trade_id,
    {
        self.trade_id
    }

    pub fn price(&self) -> (r: String)
        ensures
            r@ == self.price@,
    {
        self.price.clone()
    }

    pub fn quantity(&self) -> (r: String)
        ensures
            r@ == self.quantity@,
    {
        self.quantity.clone()
    }

    pub fn market_maker(&self) -> (r: bool)
        ensures
            r == self.market_maker,
    {
        self.market_maker
    }
}

} // verus!
