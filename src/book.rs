//! The limit order book rebuilt from snapshots, depth diffs and trades.
//!
//! Prices and quantities are exact decimals held as integer units of
//! 10^-8 (see `decimal`). Each side is a vector of levels kept strictly
//! sorted by price from the best level outwards: asks ascending, bids
//! descending. No level has zero quantity.
use vstd::prelude::*;
use crate::decimal::{read_units, units_result, UnitsError};
use crate::event::{Event, EventKind};

verus! {

/// Why a row could not be applied to the book.
#[derive(Clone, Copy, PartialEq, Eq, Structural, Debug)]
pub enum BookError {
    /// fpdec does not read the price as a decimal.
    InvalidPrice,
    /// fpdec does not read the quantity as a decimal.
    InvalidQuantity,
    /// The price is a decimal outside the book's units: negative, finer
    /// than 10^-8, or above `u64::MAX` units.
    PriceOutOfRange,
    /// The quantity is a decimal outside the book's units.
    QuantityOutOfRange,
    /// The row does not say whether it is an ask or a bid.
    MissingSide,
    /// A depth row without its last update id, or a snapshot row without
    /// its snapshot id.
    MissingId,
    /// A trade row, which carries no level.
    NotALevel,
}

pub open spec fn price_error(e: UnitsError) -> BookError {
    match e {
        UnitsError::Rejected => BookError::InvalidPrice,
        UnitsError::OutOfRange => BookError::PriceOutOfRange,
    }
}

pub open spec fn quantity_error(e: UnitsError) -> BookError {
    match e {
        UnitsError::Rejected => BookError::InvalidQuantity,
        UnitsError::OutOfRange => BookError::QuantityOutOfRange,
    }
}

/// The level a row stands for, or why it stands for none: the price is
/// checked first, then the quantity, then the side.
pub open spec fn row_level(price: Seq<char>, quantity: Seq<char>, ask_not_bid: Option<bool>) -> Result<LevelUpdate, BookError> {
    match units_result(price) {
        Err(e) => Err(price_error(e)),
        Ok(p) => match units_result(quantity) {
            Err(e) => Err(quantity_error(e)),
            Ok(q) => match ask_not_bid {
                None => Err(BookError::MissingSide),
                Some(a) => Ok(LevelUpdate { price: p, quantity: q, ask_not_bid: a }),
            },
        },
    }
}

/// The price and quantity a trade row stands for.
pub open spec fn trade_amounts(price: Seq<char>, quantity: Seq<char>) -> Result<(u64, u64), BookError> {
    match units_result(price) {
        Err(e) => Err(price_error(e)),
        Ok(p) => match units_result(quantity) {
            Err(e) => Err(quantity_error(e)),
            Ok(q) => Ok((p, q)),
        },
    }
}

/// The id that sequences a row: a snapshot row's snapshot id, a depth row's
/// last update id.
pub open spec fn row_id(kind: EventKind, id1: Option<u64>, id2: Option<u64>) -> Option<u64> {
    if kind == EventKind::Snapshot { id1 } else { id2 }
}

/// The id and level of a depth or snapshot row, or why the book cannot take
/// it: a trade row first, then the level, then the id.
pub open spec fn row_input(kind: EventKind, id1: Option<u64>, id2: Option<u64>, price: Seq<char>, quantity: Seq<char>, ask_not_bid: Option<bool>) -> Result<(u64, LevelUpdate), BookError> {
    if kind == EventKind::Trade {
        Err(BookError::NotALevel)
    } else {
        match row_level(price, quantity, ask_not_bid) {
            Err(e) => Err(e),
            Ok(u) => match row_id(kind, id1, id2) {
                None => Err(BookError::MissingId),
                Some(id) => Ok((id, u)),
            },
        }
    }
}

fn read_price(s: &str) -> (r: Result<u64, BookError>)
    ensures
        r == match units_result(s@) { Ok(u) => Ok(u), Err(e) => Err::<u64, BookError>(price_error(e)) },
{
    match read_units(s) {
        Ok(u) => Ok(u),
        Err(UnitsError::Rejected) => Err(BookError::InvalidPrice),
        Err(UnitsError::OutOfRange) => Err(BookError::PriceOutOfRange),
    }
}

fn read_quantity(s: &str) -> (r: Result<u64, BookError>)
    ensures
        r == match units_result(s@) { Ok(u) => Ok(u), Err(e) => Err::<u64, BookError>(quantity_error(e)) },
{
    match read_units(s) {
        Ok(u) => Ok(u),
        Err(UnitsError::Rejected) => Err(BookError::InvalidQuantity),
        Err(UnitsError::OutOfRange) => Err(BookError::QuantityOutOfRange),
    }
}

/// Reads the level of a depth or snapshot row.
pub fn parse_level(row: &Event) -> (r: Result<LevelUpdate, BookError>)
    ensures
        r == row_level(row.price@, row.quantity@, row.ask_not_bid),
{
    let p = read_price(row.price.as_str())?;
    let q = read_quantity(row.quantity.as_str())?;
    match row.ask_not_bid {
        Some(a) => Ok(LevelUpdate { price: p, quantity: q, ask_not_bid: a }),
        None => Err(BookError::MissingSide),
    }
}

/// Reads the id and level of a depth or snapshot row.
pub fn parse_row(row: &Event) -> (r: Result<(u64, LevelUpdate), BookError>)
    ensures
        r == row_input(row.event_type, row.id1, row.id2, row.price@, row.quantity@, row.ask_not_bid),
{
    if row.event_type == EventKind::Trade {
        return Err(BookError::NotALevel);
    }
    let u = parse_level(row)?;
    let id = if row.event_type == EventKind::Snapshot { row.id1 } else { row.id2 };
    match id {
        Some(id) => Ok((id, u)),
        None => Err(BookError::MissingId),
    }
}

/// Reads the price and quantity of a trade row.
pub fn parse_trade(row: &Event) -> (r: Result<(u64, u64), BookError>)
    ensures
        r == trade_amounts(row.price@, row.quantity@),
{
    let p = read_price(row.price.as_str())?;
    let q = read_quantity(row.quantity.as_str())?;
    Ok((p, q))
}

/// The book's sides after one level change applied to the given sides.
pub open spec fn level_applied(asks: Seq<Level>, bids: Seq<Level>, new: Orderbook, u: LevelUpdate) -> bool {
    if u.ask_not_bid {
        set_relation(asks, new.asks@, u.price, u.quantity) && new.bids@ == bids
    } else {
        set_relation(bids, new.bids@, u.price, u.quantity) && new.asks@ == asks
    }
}

/// One price level: a price and the quantity resting there.
#[derive(Clone, Copy, PartialEq, Eq, Structural, Debug)]
pub struct Level {
    pub price: u64,
    pub quantity: u64,
}

/// One level change of a snapshot or a diff: quantity zero deletes.
#[derive(Clone, Copy, PartialEq, Eq, Structural, Debug)]
pub struct LevelUpdate {
    pub price: u64,
    pub quantity: u64,
    pub ask_not_bid: bool,
}

/// `a` lies nearer the best price than `b` on the side ordered by `asc`.
pub open spec fn before(a: u64, b: u64, asc: bool) -> bool {
    if asc {
        a < b
    } else {
        a > b
    }
}

/// A side is strictly ordered from its best level and holds no empty level.
pub open spec fn side_wf(s: Seq<Level>, asc: bool) -> bool {
    &&& forall|i: int, j: int| 0 <= i < j < s.len() ==> before(#[trigger] s[i].price, #[trigger] s[j].price, asc)
    &&& forall|i: int| 0 <= i < s.len() ==> #[trigger] s[i].quantity > 0
}

/// The side holds quantity `q` at price `p`.
pub open spec fn holds(s: Seq<Level>, p: u64, q: u64) -> bool {
    exists|i: int| 0 <= i < s.len() && #[trigger] s[i] == (Level { price: p, quantity: q })
}

/// The side has a level at price `p`.
pub open spec fn has_price(s: Seq<Level>, p: u64) -> bool {
    exists|i: int| 0 <= i < s.len() && #[trigger] s[i].price == p
}

/// `new` is `old` with the level at `p` set to `q`, or removed when `q` is zero.
pub open spec fn set_relation(old: Seq<Level>, new: Seq<Level>, p: u64, q: u64) -> bool {
    forall|pp: u64, qq: u64|
        #[trigger] holds(new, pp, qq) <==> if pp == p {
            qq == q && q > 0
        } else {
            holds(old, pp, qq)
        }
}

/// The quantity the last update in `ups` for price `p` on the given side
/// sets, if any update touches it.
pub open spec fn last_set(ups: Seq<LevelUpdate>, ask: bool, p: u64) -> Option<u64>
    decreases ups.len(),
{
    if ups.len() == 0 {
        None
    } else {
        let u = ups.last();
        if u.ask_not_bid == ask && u.price == p {
            Some(u.quantity)
        } else {
            last_set(ups.drop_last(), ask, p)
        }
    }
}

/// `new` is `old` after every update of `ups` on the given side, in order.
pub open spec fn updates_relation(old: Seq<Level>, new: Seq<Level>, ups: Seq<LevelUpdate>, ask: bool) -> bool {
    forall|pp: u64, qq: u64|
        #[trigger] holds(new, pp, qq) <==> match last_set(ups, ask, pp) {
            Some(x) => x == qq && qq > 0,
            None => holds(old, pp, qq),
        }
}

/// The side after a trade of quantity `q` consumed it from its best level
/// outwards.
pub open spec fn consume(s: Seq<Level>, q: nat) -> Seq<Level>
    decreases s.len(),
{
    if s.len() == 0 || q == 0 {
        s
    } else if s[0].quantity > q {
        s.update(0, Level { price: s[0].price, quantity: (s[0].quantity - q) as u64 })
    } else {
        consume(s.drop_first(), (q - s[0].quantity) as nat)
    }
}

/// The cost of buying `q` from the side, best level first, each level
/// contributing at most its quantity: `None` when the side cannot fill `q`.
pub open spec fn fill_cost(s: Seq<Level>, q: nat) -> Option<nat>
    decreases s.len(),
{
    if q == 0 {
        Some(0)
    } else if s.len() == 0 {
        None
    } else {
        let take: nat = if s[0].quantity < q { s[0].quantity as nat } else { q };
        match fill_cost(s.drop_first(), (q - take) as nat) {
            Some(c) => Some((c + take * s[0].price) as nat),
            None => None,
        }
    }
}

/// Total quantity resting on a side.
pub open spec fn total_quantity(s: Seq<Level>) -> nat
    decreases s.len(),
{
    if s.len() == 0 {
        0
    } else {
        (s[0].quantity + total_quantity(s.drop_first())) as nat
    }
}

/// The order book: bids best-first (descending), asks best-first
/// (ascending), and the id of the last update applied.
pub struct Orderbook {
    pub bids: Vec<Level>,
    pub asks: Vec<Level>,
    pub last_update_id: u64,
    /// The run of rows the last row belonged to.
    pub group: Option<Group>,
}

/// A run of consecutive depth or snapshot rows with one id (the rows of one
/// message), and whether the book takes it.
#[derive(Clone, Copy, PartialEq, Eq, Structural, Debug)]
pub struct Group {
    pub kind: EventKind,
    pub id: u64,
    pub applied: bool,
}

/// How one depth or snapshot row with id `id` and level `u` changes the
/// book. A row of the current run of its kind and id applies its level
/// when the run is taken. A row starting a snapshot run replaces the book
/// by its level alone and sets the cursor to the snapshot id. A row
/// starting a depth run is taken when its id is newer than the cursor: it
/// applies its level and moves the cursor to its id; otherwise the book's
/// levels and cursor stay as they are.
pub open spec fn row_step(o: Orderbook, n: Orderbook, kind: EventKind, id: u64, u: LevelUpdate) -> bool {
    if o.group matches Some(g) && g.kind == kind && g.id == id {
        &&& n.group == o.group
        &&& n.last_update_id == o.last_update_id
        &&& o.group->0.applied ==> level_applied(o.asks@, o.bids@, n, u)
        &&& !o.group->0.applied ==> n.asks@ == o.asks@ && n.bids@ == o.bids@
    } else if kind == EventKind::Snapshot {
        &&& n.group == Some(Group { kind, id, applied: true })
        &&& n.last_update_id == id
        &&& level_applied(Seq::empty(), Seq::empty(), n, u)
    } else {
        &&& n.group == Some(Group { kind, id, applied: id > o.last_update_id })
        &&& id > o.last_update_id ==> n.last_update_id == id && level_applied(o.asks@, o.bids@, n, u)
        &&& id <= o.last_update_id ==> n.last_update_id == o.last_update_id && n.asks@ == o.asks@ && n.bids@
            == o.bids@
    }
}

impl Orderbook {
    pub open spec fn wf(&self) -> bool {
        side_wf(self.bids@, false) && side_wf(self.asks@, true)
    }

    /// Every bid price lies below every ask price.
    pub open spec fn uncrossed(&self) -> bool {
        forall|i: int, j: int|
            0 <= i < self.bids@.len() && 0 <= j < self.asks@.len() ==> #[trigger] self.bids@[i].price
                < #[trigger] self.asks@[j].price
    }

    /// An empty book.
    pub fn new() -> (r: Orderbook)
        ensures
            r.wf(),
            r.bids@.len() == 0,
            r.asks@.len() == 0,
            r.last_update_id == 0,
            r.group is None,
    {
        Orderbook { bids: Vec::new(), asks: Vec::new(), last_update_id: 0, group: None }
    }
}

impl Orderbook {
    /// Applies one level change: quantity zero removes the level, any other
    /// quantity sets it.
    pub fn apply_level(&mut self, u: LevelUpdate)
        requires
            old(self).wf(),
        ensures
            final(self).wf(),
            final(self).last_update_id == old(self).last_update_id,
            final(self).group == old(self).group,
            level_applied(old(self).asks@, old(self).bids@, *final(self), u),
    {
        if u.ask_not_bid {
            set_level(&mut self.asks, u.price, u.quantity, true);
        } else {
            set_level(&mut self.bids, u.price, u.quantity, false);
        }
    }

    /// Applies one depth or snapshot row as `row_step` says: a stale depth
    /// run is discarded, a newer one advances the cursor, and a new snapshot
    /// run replaces the book.
    pub fn apply_row(&mut self, kind: EventKind, id: u64, u: LevelUpdate)
        requires
            old(self).wf(),
            kind != EventKind::Trade,
        ensures
            final(self).wf(),
            row_step(*old(self), *final(self), kind, id, u),
    {
        let cont = match self.group {
            Some(g) => g.kind == kind && g.id == id,
            None => false,
        };
        if cont {
            if self.group.unwrap().applied {
                self.apply_level(u);
            }
        } else if kind == EventKind::Snapshot {
            self.asks.clear();
            self.bids.clear();
            self.apply_level(u);
            self.last_update_id = id;
            self.group = Some(Group { kind, id, applied: true });
        } else {
            let take = id > self.last_update_id;
            if take {
                self.apply_level(u);
                self.last_update_id = id;
            }
            self.group = Some(Group { kind, id, applied: take });
        }
    }

    /// Applies a depth or snapshot row (see `row_step`). A row the book
    /// cannot take leaves it as it is.
    pub fn update(&mut self, diff: &Event) -> (r: Result<(), BookError>)
        requires
            old(self).wf(),
        ensures
            final(self).wf(),
            match row_input(diff.event_type, diff.id1, diff.id2, diff.price@, diff.quantity@, diff.ask_not_bid) {
                Ok((id, u)) => r is Ok && row_step(*old(self), *final(self), diff.event_type, id, u),
                Err(e) => r == Err::<(), BookError>(e) && *final(self) == *old(self),
            },
    {
        let (id, u) = parse_row(diff)?;
        self.apply_row(diff.event_type, id, u);
        Ok(())
    }

    /// Applies a trade row (see `apply_trade`); a row whose price or
    /// quantity cannot be read leaves the book as it is.
    pub fn handle_trade(&mut self, trade: &Event) -> (r: Result<(), BookError>)
        requires
            old(self).wf(),
        ensures
            final(self).wf(),
            match trade_amounts(trade.price@, trade.quantity@) {
                Ok((p, q)) => r is Ok && trade_step(*old(self), *final(self), p, q),
                Err(e) => r == Err::<(), BookError>(e) && *final(self) == *old(self),
            },
    {
        let (p, q) = parse_trade(trade)?;
        self.apply_trade(p, q);
        Ok(())
    }
}

/// How a trade of `q` at price `p` changes the book: it ends any run of
/// rows, and consumes the asks (at or above the best ask) or the bids
/// (below it), best level first. A book without asks keeps its levels.
pub open spec fn trade_step(o: Orderbook, n: Orderbook, p: u64, q: u64) -> bool {
    &&& n.last_update_id == o.last_update_id
    &&& n.group is None
    &&& o.asks@.len() == 0 ==> n.asks@ == o.asks@ && n.bids@ == o.bids@
    &&& o.asks@.len() > 0 && p >= o.asks@[0].price ==> n.asks@ == consume(o.asks@, q as nat) && n.bids@ == o.bids@
    &&& o.asks@.len() > 0 && p < o.asks@[0].price ==> n.bids@ == consume(o.bids@, q as nat) && n.asks@ == o.asks@
}

impl Default for Orderbook {
    /// An empty book.
    fn default() -> (r: Orderbook)
        ensures
            r.wf(),
            r.bids@.len() == 0,
            r.asks@.len() == 0,
            r.last_update_id == 0,
            r.group is None,
    {
        Orderbook::new()
    }
}

/// Index of the first level of `s` that does not lie before price `p`.
fn find_slot(s: &Vec<Level>, p: u64, asc: bool) -> (i: usize)
    requires
        side_wf(s@, asc),
    ensures
        i <= s@.len(),
        forall|k: int| 0 <= k < i ==> before(#[trigger] s@[k].price, p, asc),
        i < s@.len() ==> !before(s@[i as int].price, p, asc),
{
    let mut i: usize = 0;
    while i < s.len()
        invariant
            i <= s@.len(),
            forall|k: int| 0 <= k < i ==> before(#[trigger] s@[k].price, p, asc),
        decreases s@.len() - i,
    {
        let x = s[i].price;
        let nearer = if asc { x < p } else { x > p };
        if !nearer {
            return i;
        }
        i += 1;
    }
    i
}

/// Sets the level at price `p` to quantity `q` on a side; zero removes it.
pub fn set_level(s: &mut Vec<Level>, p: u64, q: u64, asc: bool)
    requires
        side_wf(old(s)@, asc),
    ensures
        side_wf(final(s)@, asc),
        set_relation(old(s)@, final(s)@, p, q),
{
    let i = find_slot(s, p, asc);
    let ghost o = s@;
    if i < s.len() && s[i].price == p {
        if q == 0 {
            s.remove(i);
            assert forall|pp: u64, qq: u64| #[trigger] holds(s@, pp, qq) <==> (if pp == p {
                qq == q && q > 0
            } else {
                holds(o, pp, qq)
            }) by {
                if holds(o, pp, qq) && pp != p {
                    let k = choose|k: int| 0 <= k < o.len() && o[k] == (Level { price: pp, quantity: qq });
                    if k < i {
                        assert(s@[k] == o[k]);
                    } else {
                        assert(s@[k - 1] == o[k]);
                    }
                }
                if holds(s@, pp, qq) {
                    let k = choose|k: int| 0 <= k < s@.len() && s@[k] == (Level { price: pp, quantity: qq });
                    if k < i {
                        assert(o[k] == s@[k]);
                        assert(before(o[k].price, p, asc));
                    } else {
                        assert(o[k + 1] == s@[k]);
                        assert(before(o[i as int].price, o[k + 1].price, asc));
                    }
                }
            }
        } else {
            s.set(i, Level { price: p, quantity: q });
            assert forall|pp: u64, qq: u64| #[trigger] holds(s@, pp, qq) <==> (if pp == p {
                qq == q && q > 0
            } else {
                holds(o, pp, qq)
            }) by {
                if holds(o, pp, qq) && pp != p {
                    let k = choose|k: int| 0 <= k < o.len() && o[k] == (Level { price: pp, quantity: qq });
                    assert(s@[k] == o[k]);
                }
                if holds(s@, pp, qq) {
                    let k = choose|k: int| 0 <= k < s@.len() && s@[k] == (Level { price: pp, quantity: qq });
                    if k != i {
                        assert(o[k] == s@[k]);
                        if k < i {
                            assert(before(o[k].price, o[i as int].price, asc));
                        } else {
                            assert(before(o[i as int].price, o[k].price, asc));
                        }
                    }
                }
                if pp == p && qq == q {
                    assert(s@[i as int] == (Level { price: pp, quantity: qq }));
                }
            }
        }
    } else if q != 0 {
        s.insert(i, Level { price: p, quantity: q });
        assert forall|pp: u64, qq: u64| #[trigger] holds(s@, pp, qq) <==> (if pp == p {
            qq == q && q > 0
        } else {
            holds(o, pp, qq)
        }) by {
            if holds(o, pp, qq) {
                let k = choose|k: int| 0 <= k < o.len() && o[k] == (Level { price: pp, quantity: qq });
                if k < i {
                    assert(s@[k] == o[k]);
                } else {
                    assert(s@[k + 1] == o[k]);
                }
            }
            if holds(s@, pp, qq) {
                let k = choose|k: int| 0 <= k < s@.len() && s@[k] == (Level { price: pp, quantity: qq });
                if k < i {
                    assert(o[k] == s@[k]);
                    assert(before(o[k].price, p, asc));
                } else if k > i {
                    assert(o[k - 1] == s@[k]);
                    assert(!before(o[i as int].price, p, asc));
                    if k - 1 > i {
                        assert(before(o[i as int].price, o[k - 1].price, asc));
                    }
                }
            }
            if pp == p && qq == q {
                assert(s@[i as int] == (Level { price: pp, quantity: qq }));
            }
        }
    } else {
        assert forall|pp: u64, qq: u64| #[trigger] holds(s@, pp, qq) <==> (if pp == p {
            qq == q && q > 0
        } else {
            holds(o, pp, qq)
        }) by {
            if holds(o, pp, qq) && pp == p {
                let k = choose|k: int| 0 <= k < o.len() && o[k] == (Level { price: pp, quantity: qq });
                if k < i {
                    assert(before(o[k].price, p, asc));
                } else if k > i {
                    assert(before(o[i as int].price, o[k].price, asc));
                    assert(!before(o[i as int].price, p, asc));
                } else {
                    assert(o[i as int].price == p);
                }
            }
        }
    }
}

impl Orderbook {
    /// Applies each update in order to its side: quantity zero removes the
    /// level, any other quantity sets it.
    pub fn apply_updates(&mut self, ups: &Vec<LevelUpdate>)
        requires
            old(self).wf(),
        ensures
            final(self).wf(),
            final(self).last_update_id == old(self).last_update_id,
            updates_relation(old(self).asks@, final(self).asks@, ups@, true),
            updates_relation(old(self).bids@, final(self).bids@, ups@, false),
    {
        let ghost oa = self.asks@;
        let ghost ob = self.bids@;
        let mut i: usize = 0;
        while i < ups.len()
            invariant
                i <= ups@.len(),
                self.wf(),
                self.last_update_id == old(self).last_update_id,
                oa == old(self).asks@,
                ob == old(self).bids@,
                updates_relation(oa, self.asks@, ups@.subrange(0, i as int), true),
                updates_relation(ob, self.bids@, ups@.subrange(0, i as int), false),
            decreases ups@.len() - i,
        {
            let u = ups[i];
            let ghost pa = self.asks@;
            let ghost pb = self.bids@;
            if u.ask_not_bid {
                set_level(&mut self.asks, u.price, u.quantity, true);
            } else {
                set_level(&mut self.bids, u.price, u.quantity, false);
            }
            let ghost pre = ups@.subrange(0, i as int);
            let ghost post = ups@.subrange(0, i as int + 1);
            assert(post.drop_last() =~= pre);
            assert(post.last() == u);
            i += 1;
        }
        assert(ups@.subrange(0, ups@.len() as int) =~= ups@);
    }

    /// Replaces the whole book by a snapshot's levels and records its id.
    pub fn apply_snapshot(&mut self, last_update_id: u64, levels: &Vec<LevelUpdate>)
        requires
            old(self).wf(),
        ensures
            final(self).wf(),
            final(self).last_update_id == last_update_id,
            final(self).group is None,
            updates_relation(Seq::empty(), final(self).asks@, levels@, true),
            updates_relation(Seq::empty(), final(self).bids@, levels@, false),
    {
        self.asks.clear();
        self.bids.clear();
        self.apply_updates(levels);
        self.last_update_id = last_update_id;
        self.group = None;
    }

    /// Applies a depth diff whose last update id is `last_update_id`: a diff
    /// not newer than the book's cursor is discarded, any other is applied
    /// and advances the cursor.
    pub fn apply_diff(&mut self, last_update_id: u64, levels: &Vec<LevelUpdate>)
        requires
            old(self).wf(),
        ensures
            final(self).wf(),
            last_update_id <= old(self).last_update_id ==> *final(self) == *old(self),
            last_update_id > old(self).last_update_id ==> {
                &&& final(self).last_update_id == last_update_id
                &&& final(self).group is None
                &&& updates_relation(old(self).asks@, final(self).asks@, levels@, true)
                &&& updates_relation(old(self).bids@, final(self).bids@, levels@, false)
            },
    {
        if last_update_id > self.last_update_id {
            self.apply_updates(levels);
            self.last_update_id = last_update_id;
            self.group = None;
        }
    }

    /// The best (lowest) ask price, if any ask rests in the book.
    pub fn pbest(&self) -> (r: Option<u64>)
        requires
            self.wf(),
        ensures
            self.asks@.len() == 0 ==> r is None,
            self.asks@.len() > 0 ==> r == Some(self.asks@[0].price),
            r matches Some(p) ==> forall|j: int| 0 < j < self.asks@.len() ==> p < #[trigger] self.asks@[j].price,
    {
        if self.asks.len() == 0 {
            None
        } else {
            Some(self.asks[0].price)
        }
    }

    /// The cost of buying `amount` from the asks, cheapest level first, each
    /// level contributing at most its quantity; `None` when the asks cannot
    /// fill `amount` or the cost exceeds `u128`.
    pub fn best_total_price(&self, amount: u64) -> (r: Option<u128>)
        requires
            self.wf(),
        ensures
            r == match fill_cost(self.asks@, amount as nat) {
                Some(c) => if c <= u128::MAX { Some(c as u128) } else { None },
                None => None,
            },
    {
        let mut total: u128 = 0;
        let mut rem: u64 = amount;
        let mut i: usize = 0;
        let ghost s = self.asks@;
        assert(s.subrange(0, s.len() as int) =~= s);
        while rem > 0
            invariant
                s == self.asks@,
                i <= s.len(),
                fill_cost(s, amount as nat) == match fill_cost(s.subrange(i as int, s.len() as int), rem as nat) {
                    Some(c) => Some((c + total) as nat),
                    None => None,
                },
            decreases s.len() - i,
        {
            let ghost t = s.subrange(i as int, s.len() as int);
            if i >= self.asks.len() {
                assert(t.len() == 0);
                return None;
            }
            let l = self.asks[i];
            assert(t[0] == l);
            assert(t.drop_first() =~= s.subrange(i as int + 1, s.len() as int));
            let take: u64 = if l.quantity < rem { l.quantity } else { rem };
            proof {
                let a = take as int;
                let b = l.price as int;
                assert(a * b <= 0xffff_ffff_ffff_ffffint * 0xffff_ffff_ffff_ffffint) by (nonlinear_arith)
                    requires
                        0 <= a <= 0xffff_ffff_ffff_ffffint,
                        0 <= b <= 0xffff_ffff_ffff_ffffint,
                ;
            }
            let cost: u128 = (take as u128) * (l.price as u128);
            proof {
                lemma_fill_cost_nonneg(t.drop_first(), (rem - take) as nat);
            }
            if total > u128::MAX - cost {
                proof {
                    lemma_fill_cost_lower(s, t, amount as nat, rem as nat, total as nat, cost as nat, take as nat);
                }
                return None;
            }
            total = total + cost;
            rem = rem - take;
            i += 1;
        }
        assert(fill_cost(s.subrange(i as int, s.len() as int), 0) == Some(0nat));
        Some(total)
    }
}

/// Takes `q` from a side, best level first, dropping the levels it empties.
fn sweep(s: &mut Vec<Level>, q: u64, asc: bool)
    requires
        side_wf(old(s)@, asc),
    ensures
        side_wf(final(s)@, asc),
        final(s)@ == consume(old(s)@, q as nat),
{
    let mut rem: u64 = q;
    while rem > 0 && s.len() > 0
        invariant
            side_wf(s@, asc),
            consume(s@, rem as nat) == consume(old(s)@, q as nat),
        decreases s@.len() + rem,
    {
        let l = s[0];
        if l.quantity > rem {
            let ghost before_set = s@;
            s.set(0, Level { price: l.price, quantity: l.quantity - rem });
            assert(consume(s@, 0) == s@);
            assert(s@ == consume(before_set, rem as nat));
            rem = 0;
        } else {
            let ghost before_remove = s@;
            rem = rem - l.quantity;
            s.remove(0);
            assert(s@ =~= before_remove.drop_first());
        }
    }
}

impl Orderbook {
    /// Reflects a trade as consumption of the book: at or above the best ask
    /// it takes `quantity` from the asks, cheapest first; below it, from the
    /// bids, highest first. Levels it empties are removed. A book without
    /// asks is left as it is.
    pub fn apply_trade(&mut self, price: u64, quantity: u64)
        requires
            old(self).wf(),
        ensures
            final(self).wf(),
            trade_step(*old(self), *final(self), price, quantity),
    {
        self.group = None;
        if self.asks.len() == 0 {
            return;
        }
        if price >= self.asks[0].price {
            sweep(&mut self.asks, quantity, true);
        } else {
            sweep(&mut self.bids, quantity, false);
        }
    }
}

/// Two well-formed sides holding the same (price, quantity) pairs are the
/// same sequence of levels.
pub proof fn lemma_side_determined(s1: Seq<Level>, s2: Seq<Level>, asc: bool)
    requires
        side_wf(s1, asc),
        side_wf(s2, asc),
        forall|p: u64, q: u64| holds(s1, p, q) <==> holds(s2, p, q),
    ensures
        s1 == s2,
    decreases s1.len() + s2.len(),
{
    if s1.len() == 0 {
        if s2.len() > 0 {
            assert(holds(s2, s2[0].price, s2[0].quantity));
        }
        assert(s1 =~= s2);
    } else if s2.len() == 0 {
        assert(holds(s1, s1[0].price, s1[0].quantity));
    } else {
        let a = s1[0];
        let b = s2[0];
        assert(holds(s1, a.price, a.quantity));
        assert(holds(s2, b.price, b.quantity));
        let j = choose|j: int| 0 <= j < s2.len() && s2[j] == a;
        let k = choose|k: int| 0 <= k < s1.len() && s1[k] == b;
        if j > 0 {
            assert(before(b.price, a.price, asc));
            if k > 0 {
                assert(before(a.price, b.price, asc));
            }
        }
        assert(a == b);
        let t1 = s1.drop_first();
        let t2 = s2.drop_first();
        assert forall|p: u64, q: u64| holds(t1, p, q) <==> holds(t2, p, q) by {
            if holds(t1, p, q) {
                let i = choose|i: int| 0 <= i < t1.len() && t1[i] == (Level { price: p, quantity: q });
                assert(s1[i + 1] == t1[i]);
                assert(before(s1[0].price, s1[i + 1].price, asc));
                assert(holds(s2, p, q));
                let m = choose|m: int| 0 <= m < s2.len() && s2[m] == (Level { price: p, quantity: q });
                assert(before(a.price, p, asc));
                assert(m != 0);
                assert(t2[m - 1] == s2[m]);
            }
            if holds(t2, p, q) {
                let i = choose|i: int| 0 <= i < t2.len() && t2[i] == (Level { price: p, quantity: q });
                assert(s2[i + 1] == t2[i]);
                assert(before(s2[0].price, s2[i + 1].price, asc));
                assert(holds(s1, p, q));
                let m = choose|m: int| 0 <= m < s1.len() && s1[m] == (Level { price: p, quantity: q });
                assert(before(b.price, p, asc));
                assert(m != 0);
                assert(t1[m - 1] == s1[m]);
            }
        }
        lemma_side_determined(t1, t2, asc);
        assert forall|i: int| 0 <= i < s1.len() implies s1[i] == s2[i] by {
            if i > 0 {
                assert(s1[i] == t1[i - 1]);
                assert(s2[i] == t2[i - 1]);
            }
        }
        assert(s1.len() == t1.len() + 1);
        assert(s1 =~= s2);
    }
}

/// Applying the same updates to the same side always gives the same side:
/// book reconstruction is deterministic.
pub proof fn law_updates_deterministic(old: Seq<Level>, ups: Seq<LevelUpdate>, ask: bool, r1: Seq<Level>, r2: Seq<Level>)
    requires
        side_wf(r1, ask),
        side_wf(r2, ask),
        updates_relation(old, r1, ups, ask),
        updates_relation(old, r2, ups, ask),
    ensures
        r1 == r2,
{
    assert forall|p: u64, q: u64| holds(r1, p, q) <==> holds(r2, p, q) by {
        assert(holds(r1, p, q) == holds(r2, p, q));
    }
    lemma_side_determined(r1, r2, ask);
}

/// Setting one level of the same side always gives the same side.
pub proof fn law_level_deterministic(old: Seq<Level>, p: u64, q: u64, asc: bool, r1: Seq<Level>, r2: Seq<Level>)
    requires
        side_wf(r1, asc),
        side_wf(r2, asc),
        set_relation(old, r1, p, q),
        set_relation(old, r2, p, q),
    ensures
        r1 == r2,
{
    assert forall|pp: u64, qq: u64| holds(r1, pp, qq) <==> holds(r2, pp, qq) by {
        assert(holds(r1, pp, qq) == holds(r2, pp, qq));
    }
    lemma_side_determined(r1, r2, asc);
}

/// Two snapshots with the same update id and levels leave equal books,
/// whatever each book held before.
pub proof fn law_snapshot_determines_book(id: u64, levels: Seq<LevelUpdate>, b1: Orderbook, b2: Orderbook)
    requires
        b1.wf(),
        b2.wf(),
        b1.last_update_id == id,
        b2.last_update_id == id,
        updates_relation(Seq::empty(), b1.asks@, levels, true),
        updates_relation(Seq::empty(), b1.bids@, levels, false),
        updates_relation(Seq::empty(), b2.asks@, levels, true),
        updates_relation(Seq::empty(), b2.bids@, levels, false),
    ensures
        b1.asks@ == b2.asks@,
        b1.bids@ == b2.bids@,
        b1.last_update_id == b2.last_update_id,
{
    law_updates_deterministic(Seq::empty(), levels, true, b1.asks@, b2.asks@);
    law_updates_deterministic(Seq::empty(), levels, false, b1.bids@, b2.bids@);
}

/// A diff of one non-zero level on an empty side leaves exactly that level.
pub proof fn law_update_on_empty_side(new: Seq<Level>, u: LevelUpdate)
    requires
        u.quantity > 0,
        side_wf(new, u.ask_not_bid),
        updates_relation(Seq::empty(), new, seq![u], u.ask_not_bid),
    ensures
        new == seq![Level { price: u.price, quantity: u.quantity }],
{
    let one = seq![Level { price: u.price, quantity: u.quantity }];
    assert(seq![u].drop_last() =~= Seq::<LevelUpdate>::empty());
    assert forall|pp: u64, qq: u64| holds(new, pp, qq) <==> holds(one, pp, qq) by {
        assert(seq![u].last() == u);
        assert(last_set(Seq::<LevelUpdate>::empty(), u.ask_not_bid, pp) is None);
        assert(last_set(seq![u], u.ask_not_bid, pp) == if pp == u.price { Some(u.quantity) } else { None });
        assert(!holds(Seq::<Level>::empty(), pp, qq));
        assert(holds(new, pp, qq) == (pp == u.price && qq == u.quantity));
        if pp == u.price && qq == u.quantity {
            assert(one[0] == (Level { price: pp, quantity: qq }));
        }
    }
    lemma_side_determined(new, one, u.ask_not_bid);
}

/// After updates whose last word on price `p` is quantity zero, the side
/// has no level at `p`.
pub proof fn law_zero_quantity_removes(old: Seq<Level>, new: Seq<Level>, ups: Seq<LevelUpdate>, ask: bool, p: u64)
    requires
        updates_relation(old, new, ups, ask),
        last_set(ups, ask, p) == Some(0u64),
    ensures
        !has_price(new, p),
{
    if has_price(new, p) {
        let i = choose|i: int| 0 <= i < new.len() && new[i].price == p;
        assert(holds(new, p, new[i].quantity));
    }
}

/// The cost of filling a quantity never decreases as the quantity grows,
/// and whatever can fill a larger quantity can fill a smaller one.
pub proof fn law_fill_cost_monotone(s: Seq<Level>, q1: nat, q2: nat)
    requires
        q1 <= q2,
        fill_cost(s, q2) is Some,
    ensures
        fill_cost(s, q1) is Some,
        fill_cost(s, q1)->0 <= fill_cost(s, q2)->0,
    decreases s.len(),
{
    if q1 > 0 {
        let p = s[0].price as nat;
        let t1: nat = if s[0].quantity < q1 { s[0].quantity as nat } else { q1 };
        let t2: nat = if s[0].quantity < q2 { s[0].quantity as nat } else { q2 };
        law_fill_cost_monotone(s.drop_first(), (q1 - t1) as nat, (q2 - t2) as nat);
        assert(t1 * p <= t2 * p) by (nonlinear_arith)
            requires
                t1 <= t2,
        ;
    } else {
        lemma_fill_cost_nonneg(s, q2);
    }
}

/// The sum over the levels of a side, best first, of each level's price
/// times the quantity it contributes to filling `q`: its own quantity,
/// clamped to what is still unfilled after the levels before it (never
/// below zero).
pub open spec fn clamped_cost(s: Seq<Level>, q: int) -> int
    decreases s.len(),
{
    if s.len() == 0 {
        0
    } else {
        let left = if q > 0 { q } else { 0 };
        let take = if (s[0].quantity as int) < left { s[0].quantity as int } else { left };
        take * s[0].price + clamped_cost(s.drop_first(), q - s[0].quantity)
    }
}

proof fn lemma_clamped_cost_zero(s: Seq<Level>, q: int)
    requires
        q <= 0,
    ensures
        clamped_cost(s, q) == 0,
    decreases s.len(),
{
    if s.len() > 0 {
        lemma_clamped_cost_zero(s.drop_first(), q - s[0].quantity);
        let left = if q > 0 { q } else { 0 };
        let take = if (s[0].quantity as int) < left { s[0].quantity as int } else { left };
        assert(take == 0);
        assert(take * s[0].price == 0);
        assert(clamped_cost(s, q) == take * s[0].price + clamped_cost(s.drop_first(), q - s[0].quantity));
    }
}

/// Filling `q` from a side that holds at least `q` costs the clamped sum
/// over its levels; a side holding less cannot fill it.
pub proof fn law_fill_cost_is_clamped_sum(s: Seq<Level>, q: nat)
    ensures
        q <= total_quantity(s) ==> fill_cost(s, q) == Some(clamped_cost(s, q as int) as nat),
        q > total_quantity(s) ==> fill_cost(s, q) is None,
    decreases s.len(),
{
    if q > total_quantity(s) {
        law_trade_exhausts_side(s, q);
    } else if q == 0 {
        lemma_clamped_cost_zero(s, 0);
    } else {
        let a = s[0].quantity as nat;
        let p = s[0].price as nat;
        let take: nat = if a < q { a } else { q };
        law_fill_cost_is_clamped_sum(s.drop_first(), (q - take) as nat);
        if a < q {
            assert(clamped_cost(s.drop_first(), q - a) >= 0) by {
                lemma_clamped_cost_nonneg(s.drop_first(), q - a);
            }
        } else {
            lemma_clamped_cost_zero(s.drop_first(), q - a);
        }
        assert(take * p >= 0) by (nonlinear_arith);
    }
}

proof fn lemma_clamped_cost_nonneg(s: Seq<Level>, q: int)
    ensures
        clamped_cost(s, q) >= 0,
    decreases s.len(),
{
    if s.len() > 0 {
        lemma_clamped_cost_nonneg(s.drop_first(), q - s[0].quantity);
        let left = if q > 0 { q } else { 0 };
        let take = if (s[0].quantity as int) < left { s[0].quantity as int } else { left };
        assert(take * s[0].price >= 0) by (nonlinear_arith)
            requires
                take >= 0,
        ;
    }
}

/// A trade larger than all the quantity resting on a side empties it, and
/// that quantity cannot be filled from the side.
pub proof fn law_trade_exhausts_side(s: Seq<Level>, q: nat)
    requires
        q > total_quantity(s),
    ensures
        consume(s, q).len() == 0,
        fill_cost(s, q) is None,
    decreases s.len(),
{
    if s.len() > 0 {
        law_trade_exhausts_side(s.drop_first(), (q - s[0].quantity) as nat);
    }
}

/// Setting one level keeps the book uncrossed when the update deletes, or
/// when its price lies strictly inside the opposite side's best price.
pub proof fn law_update_keeps_uncrossed(b: Orderbook, a: Orderbook, u: LevelUpdate)
    requires
        b.wf(),
        b.uncrossed(),
        u.ask_not_bid ==> set_relation(b.asks@, a.asks@, u.price, u.quantity) && a.bids@ == b.bids@,
        !u.ask_not_bid ==> set_relation(b.bids@, a.bids@, u.price, u.quantity) && a.asks@ == b.asks@,
        u.quantity == 0 || (u.ask_not_bid && forall|i: int| 0 <= i < b.bids@.len() ==> #[trigger] b.bids@[i].price < u.price)
            || (!u.ask_not_bid && forall|j: int| 0 <= j < b.asks@.len() ==> u.price < #[trigger] b.asks@[j].price),
    ensures
        a.uncrossed(),
{
    assert forall|i: int, j: int| 0 <= i < a.bids@.len() && 0 <= j < a.asks@.len() implies #[trigger] a.bids@[i].price
        < #[trigger] a.asks@[j].price by {
        let x = a.bids@[i];
        let y = a.asks@[j];
        assert(holds(a.bids@, x.price, x.quantity));
        assert(holds(a.asks@, y.price, y.quantity));
        if u.ask_not_bid {
            if y.price != u.price {
                let m = choose|m: int| 0 <= m < b.asks@.len() && b.asks@[m] == y;
                assert(b.bids@[i] == x);
            }
        } else {
            if x.price != u.price {
                let m = choose|m: int| 0 <= m < b.bids@.len() && b.bids@[m] == x;
                assert(b.asks@[j] == y);
            }
        }
    }
}

proof fn lemma_last_set_source(ups: Seq<LevelUpdate>, ask: bool, p: u64, q: u64)
    requires
        last_set(ups, ask, p) == Some(q),
    ensures
        exists|i: int| 0 <= i < ups.len() && #[trigger] ups[i] == (LevelUpdate { price: p, quantity: q, ask_not_bid: ask }),
    decreases ups.len(),
{
    let n = ups.len() - 1;
    if ups[n].ask_not_bid == ask && ups[n].price == p {
        assert(ups[n] == (LevelUpdate { price: p, quantity: q, ask_not_bid: ask }));
    } else {
        lemma_last_set_source(ups.drop_last(), ask, p, q);
        let i = choose|i: int| 0 <= i < ups.drop_last().len() && #[trigger] ups.drop_last()[i] == (LevelUpdate {
            price: p,
            quantity: q,
            ask_not_bid: ask,
        });
        assert(ups[i] == ups.drop_last()[i]);
    }
}

/// A snapshot whose non-empty bid levels all lie below its non-empty ask
/// levels leaves an uncrossed book.
pub proof fn law_snapshot_uncrossed(levels: Seq<LevelUpdate>, b: Orderbook)
    requires
        updates_relation(Seq::empty(), b.asks@, levels, true),
        updates_relation(Seq::empty(), b.bids@, levels, false),
        forall|i: int, j: int|
            0 <= i < levels.len() && 0 <= j < levels.len() && !levels[i].ask_not_bid && levels[j].ask_not_bid
                && levels[i].quantity > 0 && levels[j].quantity > 0 ==> #[trigger] levels[i].price
                < #[trigger] levels[j].price,
    ensures
        b.uncrossed(),
{
    assert forall|i: int, j: int| 0 <= i < b.bids@.len() && 0 <= j < b.asks@.len() implies #[trigger] b.bids@[i].price
        < #[trigger] b.asks@[j].price by {
        let x = b.bids@[i];
        let y = b.asks@[j];
        assert(holds(b.bids@, x.price, x.quantity));
        assert(holds(b.asks@, y.price, y.quantity));
        assert(!holds(Seq::<Level>::empty(), x.price, x.quantity));
        assert(!holds(Seq::<Level>::empty(), y.price, y.quantity));
        lemma_last_set_source(levels, false, x.price, x.quantity);
        lemma_last_set_source(levels, true, y.price, y.quantity);
        let k = choose|k: int| 0 <= k < levels.len() && #[trigger] levels[k] == (LevelUpdate {
            price: x.price,
            quantity: x.quantity,
            ask_not_bid: false,
        });
        let m = choose|m: int| 0 <= m < levels.len() && #[trigger] levels[m] == (LevelUpdate {
            price: y.price,
            quantity: y.quantity,
            ask_not_bid: true,
        });
        assert(levels[k].price < levels[m].price);
    }
}

proof fn lemma_updates_push(old: Seq<Level>, mid: Seq<Level>, new: Seq<Level>, ups: Seq<LevelUpdate>, u: LevelUpdate, ask: bool)
    requires
        updates_relation(old, mid, ups, ask),
        u.ask_not_bid == ask ==> set_relation(mid, new, u.price, u.quantity),
        u.ask_not_bid != ask ==> new == mid,
    ensures
        updates_relation(old, new, ups.push(u), ask),
{
    assert(ups.push(u).drop_last() =~= ups);
    assert(ups.push(u).last() == u);
    assert forall|pp: u64, qq: u64| #[trigger] holds(new, pp, qq) <==> match last_set(ups.push(u), ask, pp) {
        Some(x) => x == qq && qq > 0,
        None => holds(old, pp, qq),
    } by {
        assert(holds(mid, pp, qq) <==> match last_set(ups, ask, pp) {
            Some(x) => x == qq && qq > 0,
            None => holds(old, pp, qq),
        });
    }
}

proof fn lemma_snapshot_prefix(books: Seq<Orderbook>, id: u64, ups: Seq<LevelUpdate>, k: int)
    requires
        1 <= k <= ups.len(),
        books.len() == ups.len() + 1,
        !(books[0].group matches Some(g) && g.kind == EventKind::Snapshot && g.id == id),
        forall|i: int| 0 <= i < ups.len() ==> row_step(#[trigger] books[i], books[i + 1], EventKind::Snapshot, id, ups[i]),
    ensures
        books[k].group == Some(Group { kind: EventKind::Snapshot, id, applied: true }),
        books[k].last_update_id == id,
        updates_relation(Seq::empty(), books[k].asks@, ups.subrange(0, k), true),
        updates_relation(Seq::empty(), books[k].bids@, ups.subrange(0, k), false),
    decreases k,
{
    let e = Seq::<Level>::empty();
    let u = ups[k - 1];
    assert(row_step(books[k - 1], books[k], EventKind::Snapshot, id, u));
    assert(ups.subrange(0, k) =~= ups.subrange(0, k - 1).push(u));
    if k == 1 {
        assert(ups.subrange(0, 0) =~= Seq::<LevelUpdate>::empty());
        assert forall|pp: u64, qq: u64| #[trigger] holds(e, pp, qq) <==> match last_set(Seq::<LevelUpdate>::empty(), true, pp) {
            Some(x) => x == qq && qq > 0,
            None => holds(e, pp, qq),
        } by {}
        assert forall|pp: u64, qq: u64| #[trigger] holds(e, pp, qq) <==> match last_set(Seq::<LevelUpdate>::empty(), false, pp) {
            Some(x) => x == qq && qq > 0,
            None => holds(e, pp, qq),
        } by {}
        lemma_updates_push(e, e, books[1].asks@, Seq::empty(), u, true);
        lemma_updates_push(e, e, books[1].bids@, Seq::empty(), u, false);
    } else {
        lemma_snapshot_prefix(books, id, ups, k - 1);
        lemma_updates_push(e, books[k - 1].asks@, books[k].asks@, ups.subrange(0, k - 1), u, true);
        lemma_updates_push(e, books[k - 1].bids@, books[k].bids@, ups.subrange(0, k - 1), u, false);
    }
}

/// The rows of one snapshot, fed to `update` in turn from any book (unless
/// that book is already inside a run of the same snapshot), replace the
/// book wholesale: afterwards it holds exactly what the snapshot's levels
/// say and its cursor is the snapshot id.
pub proof fn law_snapshot_rows_replace(books: Seq<Orderbook>, id: u64, ups: Seq<LevelUpdate>)
    requires
        ups.len() > 0,
        books.len() == ups.len() + 1,
        !(books[0].group matches Some(g) && g.kind == EventKind::Snapshot && g.id == id),
        forall|i: int| 0 <= i < ups.len() ==> row_step(#[trigger] books[i], books[i + 1], EventKind::Snapshot, id, ups[i]),
    ensures
        books.last().last_update_id == id,
        updates_relation(Seq::empty(), books.last().asks@, ups, true),
        updates_relation(Seq::empty(), books.last().bids@, ups, false),
{
    lemma_snapshot_prefix(books, id, ups, ups.len() as int);
    assert(ups.subrange(0, ups.len() as int) =~= ups);
}

/// Two books given the rows of two snapshots with the same id and levels
/// through `update` end up equal, whatever each held before.
pub proof fn law_snapshot_rows_determine_book(b1: Seq<Orderbook>, b2: Seq<Orderbook>, id: u64, ups: Seq<LevelUpdate>)
    requires
        ups.len() > 0,
        b1.len() == ups.len() + 1,
        b2.len() == ups.len() + 1,
        b1.last().wf(),
        b2.last().wf(),
        !(b1[0].group matches Some(g) && g.kind == EventKind::Snapshot && g.id == id),
        !(b2[0].group matches Some(g) && g.kind == EventKind::Snapshot && g.id == id),
        forall|i: int| 0 <= i < ups.len() ==> row_step(#[trigger] b1[i], b1[i + 1], EventKind::Snapshot, id, ups[i]),
        forall|i: int| 0 <= i < ups.len() ==> row_step(#[trigger] b2[i], b2[i + 1], EventKind::Snapshot, id, ups[i]),
    ensures
        b1.last().asks@ == b2.last().asks@,
        b1.last().bids@ == b2.last().bids@,
        b1.last().last_update_id == b2.last().last_update_id,
{
    law_snapshot_rows_replace(b1, id, ups);
    law_snapshot_rows_replace(b2, id, ups);
    law_updates_deterministic(Seq::empty(), ups, true, b1.last().asks@, b2.last().asks@);
    law_updates_deterministic(Seq::empty(), ups, false, b1.last().bids@, b2.last().bids@);
}

/// A depth row whose id is not newer than the book's cursor, starting a
/// run, leaves the book's levels and cursor as they are.
pub proof fn law_stale_row_is_noop(o: Orderbook, n: Orderbook, id: u64, u: LevelUpdate)
    requires
        row_step(o, n, EventKind::Depth, id, u),
        !(o.group matches Some(g) && g.kind == EventKind::Depth && g.id == id),
        id <= o.last_update_id,
    ensures
        n.asks@ == o.asks@,
        n.bids@ == o.bids@,
        n.last_update_id == o.last_update_id,
{
}

/// A row keeps the book uncrossed when its level deletes, or lies strictly
/// inside the opposite side's best price.
pub proof fn law_row_keeps_uncrossed(o: Orderbook, n: Orderbook, kind: EventKind, id: u64, u: LevelUpdate)
    requires
        o.wf(),
        o.uncrossed(),
        row_step(o, n, kind, id, u),
        u.quantity == 0 || (u.ask_not_bid && forall|i: int| 0 <= i < o.bids@.len() ==> #[trigger] o.bids@[i].price < u.price)
            || (!u.ask_not_bid && forall|j: int| 0 <= j < o.asks@.len() ==> u.price < #[trigger] o.asks@[j].price),
    ensures
        n.uncrossed(),
{
    let cont = o.group matches Some(g) && g.kind == kind && g.id == id;
    if cont {
        if o.group->0.applied {
            law_update_keeps_uncrossed(o, n, u);
        }
    } else if kind == EventKind::Snapshot {
        if u.ask_not_bid {
            assert(n.bids@.len() == 0);
        } else {
            assert(n.asks@.len() == 0);
        }
    } else if id > o.last_update_id {
        law_update_keeps_uncrossed(o, n, u);
    }
}

proof fn lemma_consume_subset(s: Seq<Level>, q: nat, i: int)
    requires
        0 <= i < consume(s, q).len(),
    ensures
        exists|k: int| 0 <= k < s.len() && #[trigger] s[k].price == consume(s, q)[i].price,
    decreases s.len(),
{
    if s.len() == 0 || q == 0 {
        assert(s[i].price == consume(s, q)[i].price);
    } else if s[0].quantity > q {
        assert(s[i].price == consume(s, q)[i].price);
    } else {
        lemma_consume_subset(s.drop_first(), (q - s[0].quantity) as nat, i);
        let k = choose|k: int| 0 <= k < s.drop_first().len() && #[trigger] s.drop_first()[k].price == consume(s, q)[i].price;
        assert(s[k + 1].price == consume(s, q)[i].price);
    }
}

/// A trade only shrinks or removes levels, so it keeps the book uncrossed.
pub proof fn law_trade_keeps_uncrossed(b: Orderbook, a: Orderbook, q: nat)
    requires
        b.uncrossed(),
        (a.asks@ == consume(b.asks@, q) && a.bids@ == b.bids@) || (a.bids@ == consume(b.bids@, q) && a.asks@ == b.asks@),
    ensures
        a.uncrossed(),
{
    assert forall|i: int, j: int| 0 <= i < a.bids@.len() && 0 <= j < a.asks@.len() implies #[trigger] a.bids@[i].price
        < #[trigger] a.asks@[j].price by {
        if a.asks@ == consume(b.asks@, q) && a.bids@ == b.bids@ {
            lemma_consume_subset(b.asks@, q, j);
            let k = choose|k: int| 0 <= k < b.asks@.len() && #[trigger] b.asks@[k].price == a.asks@[j].price;
            assert(b.bids@[i].price < b.asks@[k].price);
        } else {
            lemma_consume_subset(b.bids@, q, i);
            let k = choose|k: int| 0 <= k < b.bids@.len() && #[trigger] b.bids@[k].price == a.bids@[i].price;
            assert(b.bids@[k].price < b.asks@[j].price);
        }
    }
}

proof fn lemma_fill_cost_nonneg(s: Seq<Level>, q: nat)
    ensures
        fill_cost(s, q) matches Some(c) ==> c >= 0,
{
}

proof fn lemma_fill_cost_lower(s: Seq<Level>, t: Seq<Level>, amount: nat, rem: nat, total: nat, cost: nat, take: nat)
    requires
        rem > 0,
        t.len() > 0,
        take == if t[0].quantity < rem { t[0].quantity as nat } else { rem },
        cost == take * t[0].price,
        total + cost > u128::MAX,
        fill_cost(s, amount) == match fill_cost(t, rem) {
            Some(c) => Some((c + total) as nat),
            None => None,
        },
    ensures
        match fill_cost(s, amount) {
            Some(c) => c > u128::MAX,
            None => true,
        },
{
}

} // verus!
