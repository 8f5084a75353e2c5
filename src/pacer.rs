//! Pacing of snapshot requests against the exchange's per-minute weight
//! budget.
use vstd::prelude::*;
use vstd::string::StringExecFns;
use crate::event::RawEvent;

verus! {

/// Weight of the exchange-information request.
pub const EXCHANGE_INFO_WEIGHT: u64 = 20;

/// Weight of one full-depth snapshot request.
pub const SNAPSHOT_WEIGHT: u64 = 250;

/// Seconds of one weight window.
pub const WINDOW_SECS: i64 = 60;

/// Seconds of one round of snapshots over every symbol.
pub const CYCLE_SECS: i64 = 3600;

/// The budget learnt at start-up: the weight already spent and the
/// per-minute limit.
pub struct ExchangeInfo {
    pub weight: u64,
    pub limit: u64,
}

impl ExchangeInfo {
    /// The budget for a per-minute `limit`, seeded with the weight of the
    /// request that reported it.
    pub fn new(limit: u64) -> (r: ExchangeInfo)
        ensures
            r.weight == EXCHANGE_INFO_WEIGHT,
            r.limit == limit,
    {
        ExchangeInfo { weight: EXCHANGE_INFO_WEIGHT, limit }
    }
}

/// What `str::to_uppercase` makes of a string.
pub uninterp spec fn upper_of(s: Seq<char>) -> Seq<char>;

/// Relies on std's `str::to_uppercase`: the result depends on the
/// characters alone (Unicode case mapping, no locale).
#[verifier::external_body]
fn uppercase(s: &str) -> (r: String)
    ensures
        r@ == upper_of(s@),
{
    s.to_uppercase()
}

/// A snapshot response and the weight it cost.
pub struct SnapshotInfo {
    pub weight: u64,
    pub raw_snapshot: RawEvent,
}

impl SnapshotInfo {
    /// The snapshot frame `SYMBOL@snapshot{json}` of `symbol`'s response,
    /// with the symbol upper-cased.
    pub fn new(symbol: &str, response: &str) -> (r: SnapshotInfo)
        ensures
            r.weight == SNAPSHOT_WEIGHT,
            r.raw_snapshot matches RawEvent::RawSnapshot(s) && s@ == upper_of(symbol@) + "@snapshot"@ + response@,
    {
        let upper = uppercase(symbol);
        SnapshotInfo::from_upper(&upper, response)
    }

    /// The snapshot frame of an already upper-cased symbol.
    pub fn from_upper(symbol: &str, response: &str) -> (r: SnapshotInfo)
        ensures
            r.weight == SNAPSHOT_WEIGHT,
            r.raw_snapshot matches RawEvent::RawSnapshot(s) && s@ == symbol@ + "@snapshot"@ + response@,
    {
        let mut s = symbol.to_owned();
        s.append("@snapshot");
        s.append(response);
        SnapshotInfo { weight: SNAPSHOT_WEIGHT, raw_snapshot: RawEvent::RawSnapshot(s) }
    }
}

/// The snapshot loop's budget: weight spent in the current window, the
/// limit, and the seconds left of the current round.
pub struct Pacer {
    pub weight: u64,
    pub limit: u64,
    pub time_left: i64,
}

impl Pacer {
    pub fn new(info: &ExchangeInfo) -> (r: Pacer)
        ensures
            r.weight == info.weight,
            r.limit == info.limit,
            r.time_left == CYCLE_SECS,
    {
        Pacer { weight: info.weight, limit: info.limit, time_left: CYCLE_SECS }
    }

    /// Accounts for a snapshot request of weight `w`. Returns whether the
    /// loop must now wait one window: when another such request would reach
    /// the limit. Waiting starts a new window and counts against the round.
    pub fn after_snapshot(&mut self, w: u64) -> (wait: bool)
        requires
            old(self).time_left >= i64::MIN + WINDOW_SECS,
        ensures
            final(self).limit == old(self).limit,
            ({
                let spent = old(self).weight + w;
                &&& wait == (spent + w >= old(self).limit)
                &&& wait ==> final(self).weight == 0 && final(self).time_left == old(self).time_left - WINDOW_SECS
                &&& !wait ==> final(self).weight == spent && final(self).time_left == old(self).time_left
            }),
    {
        let spent = self.weight as u128 + w as u128;
        if spent + w as u128 >= self.limit as u128 {
            self.weight = 0;
            self.time_left = self.time_left - WINDOW_SECS;
            true
        } else {
            self.weight = spent as u64;
            false
        }
    }

    /// Seconds to wait once every symbol had its snapshot; the round then
    /// starts again.
    pub fn end_round(&mut self) -> (secs: u64)
        ensures
            secs == if old(self).time_left > 0 { old(self).time_left as u64 } else { 0 },
            final(self).time_left == CYCLE_SECS,
            final(self).weight == old(self).weight,
            final(self).limit == old(self).limit,
    {
        let secs = if self.time_left > 0 { self.time_left as u64 } else { 0 };
        self.time_left = CYCLE_SECS;
        secs
    }
}

} // verus!
