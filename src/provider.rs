//! Paging of replayed rows: one product's rows are fetched in fixed windows
//! of gate time and handed out one at a time.
use vstd::prelude::*;
use crate::event::{Event, EventView};

verus! {

/// Milliseconds of one fetch window (five minutes).
pub const WINDOW_MS: i64 = 300_000;

/// What the provider needs next.
pub enum Pull {
    /// The next row.
    Row(Event),
    /// The rows of `product` with gate time in `[from_ms, to_ms)`, passed to
    /// `load`.
    Fetch { from_ms: i64, to_ms: i64 },
    /// The stream is over: a window came back empty.
    End,
}

/// The cursor over one product's rows.
pub struct DataProvider {
    pub product: String,
    pub tablename: String,
    /// Start of the next window to fetch.
    pub current_ms: i64,
    pub buffer: Vec<Event>,
    pub pos: usize,
    pub finished: bool,
}

impl DataProvider {
    /// A provider for `product` in `tablename` starting at `start_ms`.
    pub fn new(product: String, tablename: String, start_ms: i64) -> (r: DataProvider)
        ensures
            r.product@ == product@,
            r.tablename@ == tablename@,
            r.current_ms == start_ms,
            r.buffer@.len() == 0,
            r.pos == 0,
            !r.finished,
    {
        DataProvider { product, tablename, current_ms: start_ms, buffer: Vec::new(), pos: 0, finished: false }
    }

    /// The next buffered row; once the buffer is drained, the next window
    /// to fetch (advancing the cursor by one window); `End` after an empty
    /// window, or when the next window would pass the largest time.
    pub fn next(&mut self) -> (r: Pull)
        ensures
            final(self).product == old(self).product,
            final(self).tablename == old(self).tablename,
            final(self).buffer == old(self).buffer,
            final(self).finished == old(self).finished,
            old(self).pos < old(self).buffer@.len() ==> {
                &&& r matches Pull::Row(e) && e@ == old(self).buffer@[old(self).pos as int]@
                &&& final(self).pos == old(self).pos + 1
                &&& final(self).current_ms == old(self).current_ms
            },
            old(self).pos >= old(self).buffer@.len() ==> final(self).pos == old(self).pos,
            old(self).pos >= old(self).buffer@.len() && (old(self).finished || old(self).current_ms > i64::MAX - WINDOW_MS)
                ==> r is End && final(self).current_ms == old(self).current_ms,
            old(self).pos >= old(self).buffer@.len() && !old(self).finished && old(self).current_ms <= i64::MAX - WINDOW_MS
                ==> {
                &&& r == (Pull::Fetch { from_ms: old(self).current_ms, to_ms: (old(self).current_ms + WINDOW_MS) as i64 })
                &&& final(self).current_ms == old(self).current_ms + WINDOW_MS
            },
    {
        if self.pos < self.buffer.len() {
            let e = self.buffer[self.pos].duplicate();
            self.pos = self.pos + 1;
            return Pull::Row(e);
        }
        if self.finished || self.current_ms > i64::MAX - WINDOW_MS {
            return Pull::End;
        }
        let from_ms = self.current_ms;
        self.current_ms = self.current_ms + WINDOW_MS;
        Pull::Fetch { from_ms, to_ms: self.current_ms }
    }

    /// Takes the rows of the window last asked for; an empty window ends the
    /// stream.
    pub fn load(&mut self, rows: Vec<Event>)
        ensures
            final(self).product == old(self).product,
            final(self).tablename == old(self).tablename,
            final(self).current_ms == old(self).current_ms,
            final(self).buffer@ == rows@,
            final(self).pos == 0,
            final(self).finished == (old(self).finished || rows@.len() == 0),
    {
        self.finished = self.finished || rows.len() == 0;
        self.buffer = rows;
        self.pos = 0;
    }

    pub fn product(&self) -> (r: String)
        ensures
            r@ == self.product@,
    {
        self.product.clone()
    }
}

} // verus!
