//! Incremental depth updates (depth diffs) and their fan-out into one item
//! per price level: bids first, then asks.
use vstd::prelude::*;

verus! {

/// A depth-update message: event time, symbol, first and last update ids,
/// and the bid and ask levels as (price, quantity) decimal strings.
pub struct Depth {
    pub event_time: i64,
    pub symbol: String,
    pub first_update_id: u64,
    pub last_update_id: u64,
    pub bids: Vec<(String, String)>,
    pub asks: Vec<(String, String)>,
}

/// One price level of a depth message, carrying the message's identifiers.
pub struct DepthItem {
    pub event_time: i64,
    pub symbol: String,
    pub first_update_id: u64,
    pub last_update_id: u64,
    pub price: String,
    pub quantity: String,
    pub ask_not_bid: bool,
}

/// What a `DepthItem` holds, with its strings as character sequences.
pub struct DepthItemView {
    pub event_time: i64,
    pub symbol: Seq<char>,
    pub first_update_id: u64,
    pub last_update_id: u64,
    pub price: Seq<char>,
    pub quantity: Seq<char>,
    pub ask_not_bid: bool,
}

impl View for DepthItem {
    type V = DepthItemView;

    open spec fn view(&self) -> DepthItemView {
        DepthItemView {
            event_time: self.event_time,
            symbol: self.symbol@,
            first_update_id: self.first_update_id,
            last_update_id: self.last_update_id,
            price: self.price@,
            quantity: self.quantity@,
            ask_not_bid: self.ask_not_bid,
        }
    }
}

impl Depth {
    /// Number of items the message fans out into.
    pub open spec fn item_count(&self) -> nat {
        self.bids@.len() + self.asks@.len()
    }

    /// The `i`-th item of the fan-out: the bids in order, then the asks.
    pub open spec fn item_at(&self, i: int) -> DepthItemView {
        let bid = i < self.bids@.len();
        let level = if bid { self.bids@[i] } else { self.asks@[i - self.bids@.len()] };
        DepthItemView {
            event_time: self.event_time,
            symbol: self.symbol@,
            first_update_id: self.first_update_id,
            last_update_id: self.last_update_id,
            price: level.0@,
            quantity: level.1@,
            ask_not_bid: !bid,
        }
    }

    /// A cursor over the items, starting at the first bid.
    pub fn iter(&self) -> (r: DepthIterator<'_>)
        ensures
            r.depth == self,
            r.pos == 0,
    {
        DepthIterator { depth: self, pos: 0 }
    }

    /// The item with index `i` of the fan-out.
    pub fn item(&self, i: usize) -> (r: DepthItem)
        requires
            i < self.item_count(),
        ensures
            r@ == self.item_at(i as int),
    {
        let nb = self.bids.len();
        let (level, ask) = if i < nb {
            (&self.bids[i], false)
        } else {
            (&self.asks[i - nb], true)
        };
        DepthItem {
            event_time: self.event_time,
            symbol: self.symbol.clone(),
            first_update_id: self.first_update_id,
            last_update_id: self.last_update_id,
            price: level.0.clone(),
            quantity: level.1.clone(),
            ask_not_bid: ask,
        }
    }

    /// All items of the fan-out, bids first, then asks.
    pub fn items(&self) -> (r: Vec<DepthItem>)
        requires
            self.item_count() <= usize::MAX,
        ensures
            r@.len() == self.item_count(),
            forall|i: int| 0 <= i < r@.len() ==> #[trigger] r@[i]@ == self.item_at(i),
    {
        let n = self.bids.len() + self.asks.len();
        let mut out: Vec<DepthItem> = Vec::new();
        let mut i: usize = 0;
        while i < n
            invariant
                n == self.item_count(),
                i <= n,
                out@.len() == i,
                forall|k: int| 0 <= k < i ==> #[trigger] out@[k]@ == self.item_at(k),
            decreases n - i,
        {
            out.push(self.item(i));
            i += 1;
        }
        out
    }
}

impl DepthItem {
    pub fn event_time(&self) -> (r: i64)
        ensures
            r == self.event_time,
    {
        self.event_time
    }

    pub fn symbol(&self) -> (r: String)
        ensures
            r@ == self.symbol@,
    {
        self.symbol.clone()
    }

    pub fn first_update_id(&self) -> (r: u64)
        ensures
            r == self.first_update_id,
    {
        self.first_update_id
    }

    pub fn last_update_id(&self) -> (r: u64)
        ensures
            r == self.last_update_id,
    {
        self.last_update_id
    }

    pub fn price(&self) -> (r: String)
        ensures
            r@ == self.price@,
    {
        self.price.clone()
    }

    pub fn quantity(&self) -> (r: String)
        ensures
            r@ == self.quantity@,
    {
        self.quantity.clone()
    }

    pub fn ask_not_bid(&self) -> (r: bool)
        ensures
            r == self.ask_not_bid,
    {
        self.ask_not_bid
    }
}

/// A cursor over the items of a depth message.
pub struct DepthIterator<'a> {
    pub depth: &'a Depth,
    pub pos: usize,
}

impl<'a> DepthIterator<'a> {
    /// The next item, or `None` once every bid and ask has been handed out.
    pub fn next(&mut self) -> (r: Option<DepthItem>)
        requires
            old(self).depth.item_count() <= usize::MAX,
        ensures
            final(self).depth == old(self).depth,
            old(self).pos < old(self).depth.item_count() ==> {
                &&& r is Some
                &&& r->0@ == old(self).depth.item_at(old(self).pos as int)
                &&& final(self).pos == old(self).pos + 1
            },
            old(self).pos >= old(self).depth.item_count() ==> r is None && final(self).pos
                == old(self).pos,
    {
        let nb = self.depth.bids.len();
        let na = self.depth.asks.len();
        if self.pos < nb || self.pos - nb < na {
            let it = self.depth.item(self.pos);
            self.pos = self.pos + 1;
            Some(it)
        } else {
            None
        }
    }
}

} // verus!
