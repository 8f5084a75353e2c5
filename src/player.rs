//! The replay player's decisions: it feeds rows to the order book, takes
//! the candidate and realised execution prices, and tells the caller when
//! the execution model is to be reset, observed or evaluated.
//!
//! The caller runs the loop: it fetches rows, keeps the (floating-point)
//! execution model, and writes the records this module emits.
use vstd::prelude::*;
use crate::book::{BookError, Orderbook, parse_row, parse_trade, row_input, row_step, trade_amounts, trade_step, fill_cost};
use crate::event::{Event, EventKind};

verus! {

/// A measured execution: the candidate price taken after a trade, the
/// realised price taken at the next trade, and the time between the trade
/// and the depth update that followed it. Prices are in units of 10^-16.
#[derive(Clone, Copy, PartialEq, Eq, Structural, Debug)]
pub struct Record {
    pub best_player_price: Option<u128>,
    pub real_price: Option<u128>,
    pub delta_execution: i128,
}

/// What the caller does with its execution model after a row.
#[derive(Clone, Copy, PartialEq, Eq, Structural, Debug)]
pub struct Outcome {
    /// Evaluate the model's interval now, before any reset; it goes with
    /// the next emitted record.
    pub evaluate: bool,
    /// Write this record (with the interval last evaluated).
    pub emit: Option<Record>,
    /// Reset the model around this best ask price.
    pub reset: Option<Option<u64>>,
    /// Observe a trade this many milliseconds after the previous row, at the
    /// row's price.
    pub observe: Option<i128>,
}

/// The state between rows.
pub struct MarketdataPlayer {
    pub book: Orderbook,
    /// The quantity each execution buys, in units of 10^-8.
    pub quantity_execution: u64,
    /// A snapshot has been seen.
    pub bootstrapped: bool,
    /// Kind and venue time of the previous row.
    pub last: Option<(EventKind, i64)>,
    /// Id of the snapshot the replay started from.
    pub snapshot_id: Option<u64>,
    pub best_player_price: Option<u128>,
    pub delta_execution: i128,
    /// The realised price of the last record emitted, if any was.
    pub last_emitted: Option<Option<u128>>,
}

/// The cost of `q` from a book's asks as `best_total_price` returns it.
pub open spec fn cost_of(b: Orderbook, q: u64) -> Option<u128> {
    match fill_cost(b.asks@, q as nat) {
        Some(c) => if c <= u128::MAX { Some(c as u128) } else { None },
        None => None,
    }
}

pub open spec fn best_ask_of(b: Orderbook) -> Option<u64> {
    if b.asks@.len() > 0 { Some(b.asks@[0].price) } else { None }
}

pub open spec fn no_outcome() -> Outcome {
    Outcome { evaluate: false, emit: None, reset: None, observe: None }
}

impl MarketdataPlayer {
    pub open spec fn wf(&self) -> bool {
        self.book.wf()
    }

    /// The previous row was of kind `k`.
    pub open spec fn after(&self, k: EventKind) -> bool {
        self.last matches Some((lk, _)) && lk == k
    }

    /// A player with an empty book that buys `quantity_execution` units.
    pub fn new(quantity_execution: u64) -> (r: MarketdataPlayer)
        ensures
            r.wf(),
            r.quantity_execution == quantity_execution,
            !r.bootstrapped,
            r.last is None,
            r.snapshot_id is None,
            r.book.asks@.len() == 0 && r.book.bids@.len() == 0,
            r.last_emitted is None,
    {
        MarketdataPlayer {
            book: Orderbook::new(),
            quantity_execution,
            bootstrapped: false,
            last: None,
            snapshot_id: None,
            best_player_price: None,
            delta_execution: 0,
            last_emitted: None,
        }
    }

    /// Takes one row. Before the first snapshot, only snapshot rows count:
    /// the first one starts the replay and its id is recorded. Afterwards a
    /// snapshot row goes to the book only when its id is the recorded one
    /// (a re-delivery), and right after depth rows it resets the model
    /// around the best ask. A depth row right after a trade first takes the
    /// candidate price of buying `quantity_execution` and asks for the
    /// model's interval; right after a snapshot it resets the model; then it
    /// goes to the book (see `row_step`). A trade row right after depth rows
    /// takes the realised price (absent when the asks cannot fill), emits a
    /// record when the caller's interval is finite (`upper_finite`) and the
    /// realised price differs from the last one emitted, and resets the
    /// model; right after a snapshot it resets the model; after any row it
    /// is observed by the model; then it consumes the book. A row that
    /// cannot be read leaves the player as it is.
    pub fn step(&mut self, ev: &Event, upper_finite: bool) -> (r: Result<Outcome, BookError>)
        requires
            old(self).wf(),
        ensures
            final(self).wf(),
            final(self).quantity_execution == old(self).quantity_execution,
            r is Err ==> *final(self) == *old(self),
            // rows before the first snapshot
            !old(self).bootstrapped && ev.event_type != EventKind::Snapshot ==> r == Ok::<Outcome, BookError>(no_outcome())
                && *final(self) == *old(self),
            // the first snapshot row
            !old(self).bootstrapped && ev.event_type == EventKind::Snapshot ==> match row_input(ev.event_type, ev.id1, ev.id2, ev.price@, ev.quantity@, ev.ask_not_bid) {
                Err(e) => r == Err::<Outcome, BookError>(e),
                Ok((id, u)) => {
                    &&& row_step(old(self).book, final(self).book, EventKind::Snapshot, id, u)
                    &&& final(self).bootstrapped
                    &&& final(self).snapshot_id == Some(id)
                    &&& final(self).last is None
                    &&& final(self).best_player_price == old(self).best_player_price
                    &&& final(self).delta_execution == old(self).delta_execution
                    &&& final(self).last_emitted == old(self).last_emitted
                    &&& r == Ok::<Outcome, BookError>(no_outcome())
                },
            },
            // later snapshot rows
            old(self).bootstrapped && ev.event_type == EventKind::Snapshot ==> {
                let taken = ev.id1 is Some && ev.id1 == old(self).snapshot_id;
                &&& taken ==> match row_input(ev.event_type, ev.id1, ev.id2, ev.price@, ev.quantity@, ev.ask_not_bid) {
                    Err(e) => r == Err::<Outcome, BookError>(e),
                    Ok((id, u)) => row_step(old(self).book, final(self).book, EventKind::Snapshot, id, u),
                }
                &&& !taken ==> final(self).book == old(self).book
                &&& r is Ok ==> {
                    &&& final(self).bootstrapped
                    &&& final(self).snapshot_id == old(self).snapshot_id
                    &&& final(self).last == Some((EventKind::Snapshot, ev.venue_timestamp))
                    &&& final(self).best_player_price == old(self).best_player_price
                    &&& final(self).delta_execution == old(self).delta_execution
                    &&& final(self).last_emitted == old(self).last_emitted
                    &&& r == Ok::<Outcome, BookError>(Outcome {
                        evaluate: false,
                        emit: None,
                        reset: if old(self).after(EventKind::Depth) { Some(best_ask_of(final(self).book)) } else { None },
                        observe: None,
                    })
                }
            },
            // depth rows
            old(self).bootstrapped && ev.event_type == EventKind::Depth ==> match row_input(ev.event_type, ev.id1, ev.id2, ev.price@, ev.quantity@, ev.ask_not_bid) {
                Err(e) => r == Err::<Outcome, BookError>(e),
                Ok((id, u)) => {
                    &&& row_step(old(self).book, final(self).book, EventKind::Depth, id, u)
                    &&& final(self).bootstrapped
                    &&& final(self).snapshot_id == old(self).snapshot_id
                    &&& final(self).last == Some((EventKind::Depth, ev.venue_timestamp))
                    &&& final(self).last_emitted == old(self).last_emitted
                    &&& old(self).after(EventKind::Trade) ==> {
                        &&& final(self).best_player_price == cost_of(old(self).book, old(self).quantity_execution)
                        &&& old(self).last matches Some((_, t)) && final(self).delta_execution == ev.venue_timestamp - t
                        &&& r == Ok::<Outcome, BookError>(Outcome { evaluate: true, emit: None, reset: None, observe: None })
                    }
                    &&& !old(self).after(EventKind::Trade) ==> {
                        &&& final(self).best_player_price == old(self).best_player_price
                        &&& final(self).delta_execution == old(self).delta_execution
                        &&& r == Ok::<Outcome, BookError>(Outcome {
                            evaluate: false,
                            emit: None,
                            reset: if old(self).after(EventKind::Snapshot) { Some(best_ask_of(old(self).book)) } else { None },
                            observe: None,
                        })
                    }
                },
            },
            // trade rows
            old(self).bootstrapped && ev.event_type == EventKind::Trade ==> match trade_amounts(ev.price@, ev.quantity@) {
                Err(e) => r == Err::<Outcome, BookError>(e),
                Ok((p, q)) => {
                    let realised = cost_of(old(self).book, old(self).quantity_execution);
                    let emits = old(self).after(EventKind::Depth) && upper_finite && old(self).last_emitted != Some(realised);
                    &&& trade_step(old(self).book, final(self).book, p, q)
                    &&& final(self).bootstrapped
                    &&& final(self).snapshot_id == old(self).snapshot_id
                    &&& final(self).last == Some((EventKind::Trade, ev.venue_timestamp))
                    &&& final(self).best_player_price == old(self).best_player_price
                    &&& final(self).delta_execution == old(self).delta_execution
                    &&& final(self).last_emitted == if emits { Some(realised) } else { old(self).last_emitted }
                    &&& r == Ok::<Outcome, BookError>(Outcome {
                        evaluate: false,
                        emit: if emits {
                            Some(Record { best_player_price: old(self).best_player_price, real_price: realised, delta_execution: old(self).delta_execution })
                        } else {
                            None
                        },
                        reset: if old(self).after(EventKind::Depth) || old(self).after(EventKind::Snapshot) {
                            Some(best_ask_of(old(self).book))
                        } else {
                            None
                        },
                        observe: match old(self).last {
                            Some((_, t)) => Some((ev.venue_timestamp - t) as i128),
                            None => None,
                        },
                    })
                },
            },
    {
        match ev.event_type {
            EventKind::Snapshot => {
                if !self.bootstrapped {
                    let (id, u) = parse_row(ev)?;
                    self.book.apply_row(EventKind::Snapshot, id, u);
                    self.snapshot_id = Some(id);
                    self.bootstrapped = true;
                    self.last = None;
                    return Ok(Outcome { evaluate: false, emit: None, reset: None, observe: None });
                }
                let taken = ev.id1.is_some() && ev.id1 == self.snapshot_id;
                if taken {
                    let (id, u) = parse_row(ev)?;
                    self.book.apply_row(EventKind::Snapshot, id, u);
                }
                let after_depth = match self.last {
                    Some((k, _)) => k == EventKind::Depth,
                    None => false,
                };
                let reset = if after_depth { Some(self.book.pbest()) } else { None };
                self.last = Some((EventKind::Snapshot, ev.venue_timestamp));
                Ok(Outcome { evaluate: false, emit: None, reset, observe: None })
            },
            EventKind::Depth => {
                if !self.bootstrapped {
                    return Ok(Outcome { evaluate: false, emit: None, reset: None, observe: None });
                }
                let (id, u) = parse_row(ev)?;
                let mut evaluate = false;
                let mut reset: Option<Option<u64>> = None;
                match self.last {
                    Some((EventKind::Trade, t)) => {
                        self.best_player_price = self.book.best_total_price(self.quantity_execution);
                        self.delta_execution = ev.venue_timestamp as i128 - t as i128;
                        evaluate = true;
                    },
                    Some((EventKind::Snapshot, _)) => {
                        reset = Some(self.book.pbest());
                    },
                    _ => {},
                }
                self.book.apply_row(EventKind::Depth, id, u);
                self.last = Some((EventKind::Depth, ev.venue_timestamp));
                Ok(Outcome { evaluate, emit: None, reset, observe: None })
            },
            EventKind::Trade => {
                if !self.bootstrapped {
                    return Ok(Outcome { evaluate: false, emit: None, reset: None, observe: None });
                }
                let (p, q) = parse_trade(ev)?;
                let mut emit: Option<Record> = None;
                let mut reset: Option<Option<u64>> = None;
                let mut observe: Option<i128> = None;
                match self.last {
                    Some((k, t)) => {
                        if k == EventKind::Depth {
                            let realised = self.book.best_total_price(self.quantity_execution);
                            if upper_finite && self.last_emitted != Some(realised) {
                                emit = Some(Record {
                                    best_player_price: self.best_player_price,
                                    real_price: realised,
                                    delta_execution: self.delta_execution,
                                });
                                self.last_emitted = Some(realised);
                            }
                            reset = Some(self.book.pbest());
                        } else if k == EventKind::Snapshot {
                            reset = Some(self.book.pbest());
                        }
                        observe = Some(ev.venue_timestamp as i128 - t as i128);
                    },
                    None => {},
                }
                self.book.apply_trade(p, q);
                self.last = Some((EventKind::Trade, ev.venue_timestamp));
                Ok(Outcome { evaluate: false, emit, reset, observe })
            },
        }
    }
}

} // verus!
