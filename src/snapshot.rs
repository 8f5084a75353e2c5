//! Full order-book snapshots and their fan-out into one item per price
//! level: bids first, then asks.
use vstd::prelude::*;

verus! {

/// A snapshot response: the last update id it reflects and every bid and
/// ask level as (price, quantity) decimal strings.
pub struct Snapshot {
    pub last_update_id: u64,
    pub bids: Vec<(String, String)>,
    pub asks: Vec<(String, String)>,
}

/// One price level of a snapshot, carrying the snapshot's update id.
pub struct SnapshotItem {
    pub last_update_id: u64,
    pub price: String,
    pub quantity: String,
    pub ask_not_bid: bool,
}

/// What a `SnapshotItem` holds, with its strings as character sequences.
pub struct SnapshotItemView {
    pub last_update_id: u64,
    pub price: Seq<char>,
    pub quantity: Seq<char>,
    pub ask_not_bid: bool,
}

impl View for SnapshotItem {
    type V = SnapshotItemView;

    open spec fn view(&self) -> SnapshotItemView {
        SnapshotItemView {
            last_update_id: self.last_update_id,
            price: self.price@,
            quantity: self.quantity@,
            ask_not_bid: self.ask_not_bid,
        }
    }
}

impl Snapshot {
    /// Number of items the snapshot fans out into.
    pub open spec fn item_count(&self) -> nat {
        self.bids@.len() + self.asks@.len()
    }

    /// The `i`-th item of the fan-out: the bids in order, then the asks.
    pub open spec fn item_at(&self, i: int) -> SnapshotItemView {
        let bid = i < self.bids@.len();
        let level = if bid { self.bids@[i] } else { self.asks@[i - self.bids@.len()] };
        SnapshotItemView {
            last_update_id: self.last_update_id,
            price: level.0@,
            quantity: level.1@,
            ask_not_bid: !bid,
        }
    }

    /// A cursor over the items, starting at the first bid.
    pub fn iter(&self) -> (r: SnapshotIter<'_>)
        ensures
            r.snapshot == self,
            r.pos == 0,
    {
        SnapshotIter { snapshot: self, pos: 0 }
    }

    /// The item with index `i` of the fan-out.
    pub fn item(&self, i: usize) -> (r: SnapshotItem)
        requires
            i < self.item_count(),
        ensures
            r@ == self.item_at(i as int),
    {
        let nb = self.bids.len();
        let (level, ask) = if i < nb {
            (&self.bids[i], false)
        } else {
            (&self.asks[i - nb], true)
        };
        SnapshotItem {
            last_update_id: self.last_update_id,
            price: level.0.clone(),
            quantity: level.1.clone(),
            ask_not_bid: ask,
        }
    }

    /// All items of the fan-out, bids first, then asks.
    pub fn items(&self) -> (r: Vec<SnapshotItem>)
        requires
            self.item_count() <= usize::MAX,
        ensures
            r@.len() == self.item_count(),
            forall|i: int| 0 <= i < r@.len() ==> #[trigger] r@[i]@ == self.item_at(i),
    {
        let n = self.bids.len() + self.asks.len();
        let mut out: Vec<SnapshotItem> = Vec::new();
        let mut i: usize = 0;
        while i < n
            invariant
                n == self.item_count(),
                i <= n,
                out@.len() == i,
                forall|k: int| 0 <= k < i ==> #[trigger] out@[k]@ == self.item_at(k),
            decreases n - i,
        {
            out.push(self.item(i));
            i += 1;
        }
        out
    }
}

impl SnapshotItem {
    pub fn last_update_id(&self) -> (r: u64)
        ensures
            r == self.last_update_id,
    {
        self.last_update_id
    }

    pub fn price(&self) -> (r: String)
        ensures
            r@ == self.price@,
    {
        self.price.clone()
    }

    pub fn quantity(&self) -> (r: String)
        ensures
            r@ == self.quantity@,
    {
        self.quantity.clone()
    }

    pub fn ask_not_bid(&self) -> (r: bool)
        ensures
            r == self.ask_not_bid,
    {
        self.ask_not_bid
    }
}

/// A cursor over the items of a snapshot.
pub struct SnapshotIter<'a> {
    pub snapshot: &'a Snapshot,
    pub pos: usize,
}

impl<'a> SnapshotIter<'a> {
    /// The next item, or `None` once every bid and ask has been handed out.
    pub fn next(&mut self) -> (r: Option<SnapshotItem>)
        requires
            old(self).snapshot.item_count() <= usize::MAX,
        ensures
            final(self).snapshot == old(self).snapshot,
            old(self).pos < old(self).snapshot.item_count() ==> {
                &&& r is Some
                &&& r->0@ == old(self).snapshot.item_at(old(self).pos as int)
                &&& final(self).pos == old(self).pos + 1
            },
            old(self).pos >= old(self).snapshot.item_count() ==> r is None && final(self).pos
                == old(self).pos,
    {
        let nb = self.snapshot.bids.len();
        let na = self.snapshot.asks.len();
        if self.pos < nb || self.pos - nb < na {
            let it = self.snapshot.item(self.pos);
            self.pos = self.pos + 1;
            Some(it)
        } else {
            None
        }
    }
}

} // verus!
