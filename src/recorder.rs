//! The recorder's work between a frame and the rows it writes: unwrapping
//! stream envelopes, splitting snapshot frames, and stamping rows with
//! strictly increasing local ids.
use vstd::prelude::*;
use vstd::string::StringSliceAdditionalSpecFns;
use vstd::utf8::is_char_boundary;
use crate::depth::Depth;
use crate::event::{Event, EventKind, EventView};
use crate::snapshot::Snapshot;
use crate::trade::Trade;

verus! {

/// `k` occurs in `b` at byte `i`.
pub open spec fn occurs_at(b: Seq<u8>, k: Seq<u8>, i: int) -> bool {
    0 <= i && i + k.len() <= b.len() && b.subrange(i, i + k.len()) == k
}

/// The first byte at which `k` occurs in `b`, if it occurs.
pub open spec fn first_occurrence(b: Seq<u8>, k: Seq<u8>) -> Option<int> {
    if exists|i: int| occurs_at(b, k, i) {
        Some(choose|i: int| occurs_at(b, k, i) && forall|j: int| 0 <= j < i ==> !occurs_at(b, k, j))
    } else {
        None
    }
}

/// The bytes of `"data":{`.
pub open spec fn data_key() -> Seq<u8> {
    seq![34u8, 100, 97, 116, 97, 34, 58, 123]
}

/// The bytes of `@snapshot`.
pub open spec fn snapshot_key() -> Seq<u8> {
    seq![64u8, 115, 110, 97, 112, 115, 104, 111, 116]
}

fn matches_at(b: &[u8], k: &[u8], i: usize) -> (r: bool)
    requires
        i + k@.len() <= b@.len(),
    ensures
        r == occurs_at(b@, k@, i as int),
{
    let n = b.len();
    let mut m: usize = 0;
    while m < k.len()
        invariant
            n == b@.len(),
            i + k@.len() <= b@.len(),
            m <= k@.len(),
            forall|t: int| 0 <= t < m ==> b@[i + t] == k@[t],
        decreases k@.len() - m,
    {
        if b[i + m] != k[m] {
            assert(b@.subrange(i as int, i + k@.len())[m as int] != k@[m as int]);
            return false;
        }
        m += 1;
    }
    assert(b@.subrange(i as int, i + k@.len()) =~= k@);
    true
}

/// Index of the first occurrence of `k` in `b`.
pub(crate) fn find(b: &[u8], k: &[u8]) -> (r: Option<usize>)
    ensures
        match r {
            Some(i) => occurs_at(b@, k@, i as int) && forall|j: int| 0 <= j < i ==> !occurs_at(b@, k@, j),
            None => forall|j: int| !occurs_at(b@, k@, j),
        },
{
    let n = b.len();
    if k.len() > n {
        return None;
    }
    let last = n - k.len();
    let mut i: usize = 0;
    loop
        invariant
            n == b@.len(),
            last == n - k@.len(),
            i <= last,
            forall|j: int| 0 <= j < i ==> !occurs_at(b@, k@, j),
        decreases last - i,
    {
        if matches_at(b, k, i) {
            return Some(i);
        }
        if i == last {
            return None;
        }
        i += 1;
    }
}

proof fn lemma_first_occurrence(b: Seq<u8>, k: Seq<u8>, i: int)
    requires
        occurs_at(b, k, i),
        forall|j: int| 0 <= j < i ==> !occurs_at(b, k, j),
    ensures
        first_occurrence(b, k) == Some(i),
{
    let c = choose|c: int| occurs_at(b, k, c) && forall|j: int| 0 <= j < c ==> !occurs_at(b, k, j);
    if c < i {
    } else if c > i {
    }
}

/// The object inside a combined-stream envelope `{"stream":…,"data":{…}}`:
/// from the `{` of the first `"data":{` to the byte before the last.
/// `None` when there is no such key, or the cut falls inside a character.
pub fn extract_data(msg: &str) -> (r: Option<&str>)
    ensures
        match r {
            Some(d) => first_occurrence(msg.spec_bytes(), data_key()) matches Some(i) && d.spec_bytes()
                == msg.spec_bytes().subrange(i + 7, msg.spec_bytes().len() - 1),
            None => first_occurrence(msg.spec_bytes(), data_key()) is None || (first_occurrence(
                msg.spec_bytes(),
                data_key(),
            ) matches Some(i) && (!is_char_boundary(msg.spec_bytes(), msg.spec_bytes().len() - 1)
                || !is_char_boundary(msg.spec_bytes().subrange(0, msg.spec_bytes().len() - 1), i + 7))),
        },
{
    let key: Vec<u8> = vec![34u8, 100, 97, 116, 97, 34, 58, 123];
    assert(key@ =~= data_key());
    let b = msg.as_bytes();
    let n = b.len();
    let ks = key.as_slice();
    assert(ks@ == data_key());
    let i = match find(b, ks) {
        Some(i) => i,
        None => {
            assert forall|j: int| !occurs_at(msg.spec_bytes(), data_key(), j) by {}
            return None;
        },
    };
    proof {
        lemma_first_occurrence(b@, data_key(), i as int);
    }
    let start = i + 7;
    let end = n - 1;
    if !msg.is_char_boundary(end) {
        return None;
    }
    let (head, _) = msg.split_at(end);
    assert(head.spec_bytes() =~= b@.subrange(0, end as int));
    if !head.is_char_boundary(start) {
        return None;
    }
    let (_, data) = head.split_at(start);
    assert(data.spec_bytes() =~= b@.subrange(start as int, end as int));
    Some(data)
}

/// A snapshot frame `SYMBOL@snapshot{json}` cut at its first `@snapshot`
/// into the symbol and the json. `None` when there is no `@snapshot`.
pub fn split_snapshot(raw: &str) -> (r: Option<(&str, &str)>)
    ensures
        match r {
            Some((s, d)) => first_occurrence(raw.spec_bytes(), snapshot_key()) matches Some(i) && s.spec_bytes()
                == raw.spec_bytes().subrange(0, i) && d.spec_bytes() == raw.spec_bytes().subrange(
                i + 9,
                raw.spec_bytes().len() as int,
            ),
            None => first_occurrence(raw.spec_bytes(), snapshot_key()) is None || (first_occurrence(
                raw.spec_bytes(),
                snapshot_key(),
            ) matches Some(i) && (!is_char_boundary(raw.spec_bytes(), i) || !is_char_boundary(
                raw.spec_bytes().subrange(i, raw.spec_bytes().len() as int),
                9,
            ))),
        },
{
    let key: Vec<u8> = vec![64u8, 115, 110, 97, 112, 115, 104, 111, 116];
    assert(key@ =~= snapshot_key());
    let b = raw.as_bytes();
    let n = b.len();
    let ks = key.as_slice();
    assert(ks@ == snapshot_key());
    let i = match find(b, ks) {
        Some(i) => i,
        None => {
            assert forall|j: int| !occurs_at(raw.spec_bytes(), snapshot_key(), j) by {}
            return None;
        },
    };
    proof {
        lemma_first_occurrence(b@, snapshot_key(), i as int);
    }
    if !raw.is_char_boundary(i) {
        return None;
    }
    let (symbol, rest) = raw.split_at(i);
    assert(rest.spec_bytes() =~= b@.subrange(i as int, b@.len() as int));
    if !rest.is_char_boundary(9) {
        return None;
    }
    let (_, data) = rest.split_at(9);
    assert(data.spec_bytes() =~= b@.subrange(i + 9, b@.len() as int));
    Some((symbol, data))
}

/// The id given to a row read at `clock` after a row with id `last`: the
/// clock reading, raised to one past `last` when the clock has not moved on.
pub open spec fn next_id(last: Option<i64>, clock: i64) -> i64 {
    match last {
        Some(l) => if clock > l { clock } else { (l + 1) as i64 },
        None => clock,
    }
}

/// `ids` are the ids given, one per reading of `clocks`, after a row with
/// id `last`.
pub open spec fn stamps(last: Option<i64>, clocks: Seq<i64>, ids: Seq<i64>) -> bool
    decreases ids.len(),
{
    &&& ids.len() == clocks.len()
    &&& ids.len() > 0 ==> {
        &&& ids[0] == next_id(last, clocks[0])
        &&& stamps(Some(ids[0]), clocks.drop_first(), ids.drop_first())
    }
}

/// The id stamped last, given `last` before `ids`.
pub open spec fn last_of(last: Option<i64>, ids: Seq<i64>) -> Option<i64> {
    if ids.len() > 0 { Some(ids.last()) } else { last }
}

proof fn lemma_stamps_push(last: Option<i64>, clocks: Seq<i64>, ids: Seq<i64>, c: i64)
    requires
        stamps(last, clocks, ids),
    ensures
        stamps(last, clocks.push(c), ids.push(next_id(last_of(last, ids), c))),
    decreases ids.len(),
{
    let y = next_id(last_of(last, ids), c);
    if ids.len() > 0 {
        lemma_stamps_push(Some(ids[0]), clocks.drop_first(), ids.drop_first(), c);
        assert(clocks.push(c).drop_first() =~= clocks.drop_first().push(c));
        assert(ids.push(y).drop_first() =~= ids.drop_first().push(y));
        assert(last_of(Some(ids[0]), ids.drop_first()) == last_of(last, ids));
        assert(ids.push(y)[0] == ids[0]);
        assert(clocks.push(c)[0] == clocks[0]);
    } else {
        assert(ids.push(y).drop_first() =~= Seq::<i64>::empty());
        assert(clocks.push(c).drop_first() =~= Seq::<i64>::empty());
        assert(stamps(Some(y), Seq::<i64>::empty(), Seq::<i64>::empty()));
        assert(ids.push(y)[0] == y);
    }
}

/// Local ids stamped in turn strictly increase, and all lie above the id
/// stamped before them.
pub proof fn law_local_ids_strictly_increase(last: Option<i64>, clocks: Seq<i64>, ids: Seq<i64>)
    requires
        stamps(last, clocks, ids),
        last matches Some(l) ==> l < i64::MAX - clocks.len(),
        forall|k: int| 0 <= k < clocks.len() ==> #[trigger] clocks[k] < i64::MAX - clocks.len(),
    ensures
        forall|i: int, j: int| 0 <= i < j < ids.len() ==> ids[i] < ids[j],
        last matches Some(l) ==> forall|i: int| 0 <= i < ids.len() ==> l < #[trigger] ids[i],
    decreases ids.len(),
{
    if ids.len() > 0 {
        let t = ids.drop_first();
        let ct = clocks.drop_first();
        assert(clocks[0] < i64::MAX - clocks.len());
        assert forall|k: int| 0 <= k < ct.len() implies #[trigger] ct[k] < i64::MAX - ct.len() by {
            assert(ct[k] == clocks[k + 1]);
        }
        law_local_ids_strictly_increase(Some(ids[0]), ct, t);
        assert forall|i: int, j: int| 0 <= i < j < ids.len() implies ids[i] < ids[j] by {
            assert(ids[j] == t[j - 1]);
            if i > 0 {
                assert(ids[i] == t[i - 1]);
            }
        }
        if let Some(l) = last {
            assert forall|i: int| 0 <= i < ids.len() implies l < #[trigger] ids[i] by {
                if i > 0 {
                    assert(ids[i] == t[i - 1]);
                }
            }
        }
    }
}

/// Hands out local ids: each is the clock reading it is given, raised when
/// needed so that every id lies above the one before.
pub struct Stamper {
    pub last: Option<i64>,
}

impl Stamper {
    pub fn new() -> (r: Stamper)
        ensures
            r.last is None,
    {
        Stamper { last: None }
    }

    /// The id of a row read at `clock`.
    pub fn stamp(&mut self, clock: i64) -> (r: i64)
        requires
            old(self).last matches Some(l) ==> l < i64::MAX,
        ensures
            r == next_id(old(self).last, clock),
            final(self).last == Some(r),
            old(self).last matches Some(l) ==> l < r,
    {
        let id = match self.last {
            Some(l) => if clock > l { clock } else { l + 1 },
            None => clock,
        };
        self.last = Some(id);
        id
    }

    /// Stamps one id per reading of `clocks`, in order.
    fn stamp_all(&mut self, clocks: &Vec<i64>) -> (ids: Vec<i64>)
        requires
            old(self).last matches Some(l) ==> l < i64::MAX - clocks@.len(),
            forall|k: int| 0 <= k < clocks@.len() ==> #[trigger] clocks@[k] < i64::MAX - clocks@.len(),
        ensures
            stamps(old(self).last, clocks@, ids@),
            ids@.len() > 0 ==> final(self).last == Some(ids@.last()),
            ids@.len() == 0 ==> final(self).last == old(self).last,
    {
        let mut ids: Vec<i64> = Vec::new();
        let mut i: usize = 0;
        while i < clocks.len()
            invariant
                i <= clocks@.len(),
                ids@.len() == i,
                old(self).last matches Some(l) ==> l < i64::MAX - clocks@.len(),
                forall|k: int| 0 <= k < clocks@.len() ==> #[trigger] clocks@[k] < i64::MAX - clocks@.len(),
                stamps(old(self).last, clocks@.subrange(0, i as int), ids@),
                self.last == last_of(old(self).last, ids@),
                self.last matches Some(l) ==> l < i64::MAX - clocks@.len() + i,
            decreases clocks@.len() - i,
        {
            let ghost before = ids@;
            let id = self.stamp(clocks[i]);
            proof {
                lemma_stamps_push(old(self).last, clocks@.subrange(0, i as int), before, clocks@[i as int]);
                assert(clocks@.subrange(0, i as int).push(clocks@[i as int]) =~= clocks@.subrange(0, i + 1));
            }
            ids.push(id);
            i += 1;
        }
        assert(clocks@.subrange(0, clocks@.len() as int) =~= clocks@);
        ids
    }
}

/// The rows of a depth message: one per item, bids first, each stamped in
/// turn from `clocks` and carrying the frame's gate timestamp.
pub fn depth_rows(stamper: &mut Stamper, depth: &Depth, gate_timestamp: i64, clocks: &Vec<i64>) -> (r: Vec<Event>)
    requires
        clocks@.len() == depth.item_count(),
        old(stamper).last matches Some(l) ==> l < i64::MAX - clocks@.len(),
        forall|k: int| 0 <= k < clocks@.len() ==> #[trigger] clocks@[k] < i64::MAX - clocks@.len(),
    ensures
        r@.len() == depth.item_count(),
        exists|ids: Seq<i64>| {
            &&& stamps(old(stamper).last, clocks@, ids)
            &&& ids.len() > 0 ==> final(stamper).last == Some(ids.last())
            &&& forall|i: int| 0 <= i < r@.len() ==> #[trigger] r@[i]@ == (EventView {
                local_unique_id: ids[i],
                venue_timestamp: depth.event_time,
                gate_timestamp,
                event_type: EventKind::Depth,
                product: depth.symbol@,
                id1: Some(depth.first_update_id),
                id2: Some(depth.last_update_id),
                ask_not_bid: Some(depth.item_at(i).ask_not_bid),
                buy_not_sell: None,
                price: depth.item_at(i).price,
                quantity: depth.item_at(i).quantity,
            })
        },
{
    let ids = stamper.stamp_all(clocks);
    let mut rows: Vec<Event> = Vec::new();
    let mut i: usize = 0;
    while i < clocks.len()
        invariant
            i <= clocks@.len(),
            clocks@.len() == depth.item_count(),
            ids@.len() == clocks@.len(),
            rows@.len() == i,
            forall|k: int| 0 <= k < i ==> #[trigger] rows@[k]@ == (EventView {
                local_unique_id: ids@[k],
                venue_timestamp: depth.event_time,
                gate_timestamp,
                event_type: EventKind::Depth,
                product: depth.symbol@,
                id1: Some(depth.first_update_id),
                id2: Some(depth.last_update_id),
                ask_not_bid: Some(depth.item_at(k).ask_not_bid),
                buy_not_sell: None,
                price: depth.item_at(k).price,
                quantity: depth.item_at(k).quantity,
            }),
        decreases clocks@.len() - i,
    {
        let item = depth.item(i);
        rows.push(Event::from_depth_item(item, ids[i], gate_timestamp));
        i += 1;
    }
    rows
}

/// The rows of a snapshot of `symbol`, one per item, bids first. Each id
/// comes in turn from `clocks`; both time fields hold `gate_timestamp`.
pub fn snapshot_rows(stamper: &mut Stamper, snapshot: &Snapshot, symbol: &str, gate_timestamp: i64, clocks: &Vec<i64>) -> (r: Vec<Event>)
    requires
        clocks@.len() == snapshot.item_count(),
        old(stamper).last matches Some(l) ==> l < i64::MAX - clocks@.len(),
        forall|k: int| 0 <= k < clocks@.len() ==> #[trigger] clocks@[k] < i64::MAX - clocks@.len(),
    ensures
        r@.len() == snapshot.item_count(),
        exists|ids: Seq<i64>| {
            &&& stamps(old(stamper).last, clocks@, ids)
            &&& ids.len() > 0 ==> final(stamper).last == Some(ids.last())
            &&& forall|i: int| 0 <= i < r@.len() ==> #[trigger] r@[i]@ == (EventView {
                local_unique_id: ids[i],
                venue_timestamp: gate_timestamp,
                gate_timestamp,
                event_type: EventKind::Snapshot,
                product: symbol@,
                id1: Some(snapshot.last_update_id),
                id2: None,
                ask_not_bid: Some(snapshot.item_at(i).ask_not_bid),
                buy_not_sell: None,
                price: snapshot.item_at(i).price,
                quantity: snapshot.item_at(i).quantity,
            })
        },
{
    let ids = stamper.stamp_all(clocks);
    let mut rows: Vec<Event> = Vec::new();
    let mut i: usize = 0;
    while i < clocks.len()
        invariant
            i <= clocks@.len(),
            clocks@.len() == snapshot.item_count(),
            ids@.len() == clocks@.len(),
            rows@.len() == i,
            forall|k: int| 0 <= k < i ==> #[trigger] rows@[k]@ == (EventView {
                local_unique_id: ids@[k],
                venue_timestamp: gate_timestamp,
                gate_timestamp,
                event_type: EventKind::Snapshot,
                product: symbol@,
                id1: Some(snapshot.last_update_id),
                id2: None,
                ask_not_bid: Some(snapshot.item_at(k).ask_not_bid),
                buy_not_sell: None,
                price: snapshot.item_at(k).price,
                quantity: snapshot.item_at(k).quantity,
            }),
        decreases clocks@.len() - i,
    {
        let item = snapshot.item(i);
        rows.push(Event::from_snapshot_item(item, symbol, ids[i], gate_timestamp));
        i += 1;
    }
    rows
}

/// The row of a trade, stamped from `clock`.
pub fn trade_row(stamper: &mut Stamper, trade: Trade, gate_timestamp: i64, clock: i64) -> (r: Event)
    requires
        old(stamper).last matches Some(l) ==> l < i64::MAX,
    ensures
        final(stamper).last == Some(r.local_unique_id),
        r.local_unique_id == next_id(old(stamper).last, clock),
        r@ == (EventView {
            local_unique_id: r.local_unique_id,
            venue_timestamp: trade.event_time,
            gate_timestamp,
            event_type: EventKind::Trade,
            product: trade.symbol@,
            id1: Some(trade.trade_id),
            id2: None,
            ask_not_bid: None,
            buy_not_sell: Some(trade.market_maker),
            price: trade.price@,
            quantity: trade.quantity@,
        }),
{
    let id = stamper.stamp(clock);
    Event::from_trade(trade, id, gate_timestamp)
}

} // verus!
