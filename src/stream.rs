//! The live streams: which stream URLs cover the symbols, how a
//! connection treats each frame, and when it is closed.
use vstd::prelude::*;
use vstd::string::StringExecFns;
use vstd::utf8::encode_utf8;
use crate::event::RawEvent;
use crate::recorder::{find, occurs_at};

verus! {

/// Symbols served by one connection (two streams each).
pub const SYMBOLS_PER_CONNECTION: usize = 300;

/// Seconds after which the exchange drops a connection; a new one is
/// opened this often.
pub const LIFETIME_SECS: u64 = 43200;

/// Seconds an old connection is kept beside its successor.
pub const GRACE_SECS: u64 = 60;

/// The two stream names of a symbol: its trades and its 100 ms depth.
pub open spec fn streams_of(s: Seq<char>) -> Seq<char> {
    s + "@trade/"@ + s + "@depth@100ms"@
}

/// The stream names of `syms`, joined by `/`.
pub open spec fn joined_streams(syms: Seq<Seq<char>>) -> Seq<char>
    decreases syms.len(),
{
    if syms.len() == 0 {
        Seq::empty()
    } else if syms.len() == 1 {
        streams_of(syms[0])
    } else {
        joined_streams(syms.drop_last()) + "/"@ + streams_of(syms.last())
    }
}

/// The symbols of connection `g`: the `g`-th run of at most
/// `SYMBOLS_PER_CONNECTION` symbols.
pub open spec fn group_of(syms: Seq<Seq<char>>, g: int) -> Seq<Seq<char>> {
    let lo = g * SYMBOLS_PER_CONNECTION;
    let hi = if lo + SYMBOLS_PER_CONNECTION <= syms.len() { lo + SYMBOLS_PER_CONNECTION } else { syms.len() as int };
    syms.subrange(lo, hi)
}

/// Number of connections the symbols need.
pub open spec fn group_count(n: nat) -> nat {
    ((n + SYMBOLS_PER_CONNECTION - 1) / (SYMBOLS_PER_CONNECTION as int)) as nat
}

/// The combined-stream URL of connection `g` below `base`.
pub open spec fn stream_url(base: Seq<char>, syms: Seq<Seq<char>>, g: int) -> Seq<char> {
    base + joined_streams(group_of(syms, g))
}

/// The URL of one connection: `base` followed by the stream names of the
/// symbols `syms[lo..hi]`.
fn url_for(base: &str, syms: &Vec<String>, lo: usize, hi: usize) -> (r: String)
    requires
        lo < hi <= syms@.len(),
    ensures
        r@ == base@ + joined_streams(syms@.subrange(lo as int, hi as int).map_values(|s: String| s@)),
{
    let mut u = base.to_owned();
    let mut i: usize = lo;
    while i < hi
        invariant
            lo <= i <= hi <= syms@.len(),
            u@ == base@ + joined_streams(syms@.subrange(lo as int, i as int).map_values(|s: String| s@)),
        decreases hi - i,
    {
        let ghost pre = syms@.subrange(lo as int, i as int).map_values(|s: String| s@);
        let ghost next = syms@.subrange(lo as int, i + 1).map_values(|s: String| s@);
        assert(next.drop_last() =~= pre);
        assert(next.last() == syms@[i as int]@);
        if i > lo {
            u.append("/");
        }
        let s = syms[i].as_str();
        u.append(s);
        u.append("@trade/");
        u.append(s);
        u.append("@depth@100ms");
        proof {
            if i == lo {
                assert(pre.len() == 0);
                assert(next.len() == 1);
                assert(u@ =~= base@ + joined_streams(next));
            } else {
                assert(u@ =~= base@ + joined_streams(next));
            }
        }
        i += 1;
    }
    u
}

/// One combined-stream URL per run of at most `SYMBOLS_PER_CONNECTION`
/// symbols, in order; none when there are no symbols.
pub fn stream_urls(base: &str, symbols: &Vec<String>) -> (r: Vec<String>)
    ensures
        r@.len() == group_count(symbols@.len()),
        forall|g: int| 0 <= g < r@.len() ==> #[trigger] r@[g]@ == stream_url(base@, symbols@.map_values(|s: String| s@), g),
{
    let n = symbols.len();
    let mut urls: Vec<String> = Vec::new();
    let mut lo: usize = 0;
    let ghost syms = symbols@.map_values(|s: String| s@);
    while lo < n
        invariant
            n == symbols@.len(),
            syms == symbols@.map_values(|s: String| s@),
            lo <= n,
            lo == urls@.len() * SYMBOLS_PER_CONNECTION || lo == n,
            lo < n ==> lo == urls@.len() * SYMBOLS_PER_CONNECTION,
            urls@.len() == group_count(lo as nat),
            forall|g: int| 0 <= g < urls@.len() ==> #[trigger] urls@[g]@ == stream_url(base@, syms, g),
        decreases n - lo,
    {
        let hi = if n - lo > SYMBOLS_PER_CONNECTION { lo + SYMBOLS_PER_CONNECTION } else { n };
        let u = url_for(base, symbols, lo, hi);
        proof {
            let g = urls@.len() as int;
            assert(symbols@.subrange(lo as int, hi as int).map_values(|s: String| s@) =~= group_of(syms, g));
        }
        urls.push(u);
        lo = hi;
    }
    urls
}

/// The bytes of `@trade`.
pub open spec fn trade_marker() -> Seq<u8> {
    seq![64u8, 116, 114, 97, 100, 101]
}

/// The bytes of `@depth`.
pub open spec fn depth_marker() -> Seq<u8> {
    seq![64u8, 100, 101, 112, 116, 104]
}

/// `k` occurs somewhere in `b`.
pub open spec fn contains_bytes(b: Seq<u8>, k: Seq<u8>) -> bool {
    exists|i: int| occurs_at(b, k, i)
}

/// The raw event a text frame is queued as: a trade frame when it names a
/// `@trade` stream, else a depth frame when it names a `@depth` stream,
/// else none.
pub fn classify(text: String) -> (r: Option<RawEvent>)
    ensures
        contains_bytes(encode_utf8(text@), trade_marker()) ==> (r matches Some(RawEvent::RawTrade(x)) && x@ == text@),
        !contains_bytes(encode_utf8(text@), trade_marker()) && contains_bytes(encode_utf8(text@), depth_marker())
            ==> (r matches Some(RawEvent::RawDepth(x)) && x@ == text@),
        !contains_bytes(encode_utf8(text@), trade_marker()) && !contains_bytes(encode_utf8(text@), depth_marker())
            ==> r is None,
{
    let t: Vec<u8> = vec![64u8, 116, 114, 97, 100, 101];
    let d: Vec<u8> = vec![64u8, 100, 101, 112, 116, 104];
    assert(t@ =~= trade_marker());
    assert(d@ =~= depth_marker());
    let ft = find(text.as_str().as_bytes(), t.as_slice());
    if ft.is_some() {
        return Some(RawEvent::RawTrade(text));
    }
    let fd = find(text.as_str().as_bytes(), d.as_slice());
    if fd.is_some() {
        Some(RawEvent::RawDepth(text))
    } else {
        None
    }
}

/// A frame received on a connection.
pub enum Frame {
    Ping(Vec<u8>),
    Text(String),
    Other,
}

/// What a connection does with a frame.
pub enum Reply {
    /// Answer with a pong carrying the ping's payload.
    Pong(Vec<u8>),
    /// Queue the frame for the recorder.
    Forward(RawEvent),
    /// Drop the frame.
    Drop,
}

/// The reply to a frame: pings are answered with the same payload, text
/// frames are classified and queued, anything else is dropped.
pub fn on_frame(frame: Frame) -> (r: Reply)
    ensures
        frame matches Frame::Ping(p) ==> (r matches Reply::Pong(q) && q@ == p@),
        frame matches Frame::Text(t) ==> {
            &&& contains_bytes(encode_utf8(t@), trade_marker()) ==> (r matches Reply::Forward(RawEvent::RawTrade(x)) && x@ == t@)
            &&& !contains_bytes(encode_utf8(t@), trade_marker()) && contains_bytes(encode_utf8(t@), depth_marker())
                ==> (r matches Reply::Forward(RawEvent::RawDepth(x)) && x@ == t@)
            &&& !contains_bytes(encode_utf8(t@), trade_marker()) && !contains_bytes(encode_utf8(t@), depth_marker())
                ==> r is Drop
        },
        frame is Other ==> r is Drop,
{
    match frame {
        Frame::Ping(p) => Reply::Pong(p),
        Frame::Text(t) => match classify(t) {
            Some(ev) => Reply::Forward(ev),
            None => Reply::Drop,
        },
        Frame::Other => Reply::Drop,
    }
}

/// The connection opened `elapsed_secs` ago is closed by now.
pub open spec fn closed_after(elapsed_secs: int) -> bool {
    elapsed_secs >= LIFETIME_SECS + GRACE_SECS
}

/// Connection `k` opens `k` lifetimes after the first. At any moment from
/// the first opening on, the latest connection opened is still open, and
/// while the next one opens, the previous one stays open for the grace
/// period.
pub proof fn law_connections_overlap(t: int, k: int)
    requires
        t >= 0,
        k >= 0,
        k * LIFETIME_SECS <= t < (k + 1) * LIFETIME_SECS,
    ensures
        !closed_after(t - k * LIFETIME_SECS),
        k > 0 && t < k * LIFETIME_SECS + GRACE_SECS ==> !closed_after(t - (k - 1) * LIFETIME_SECS),
{
    assert((k + 1) * LIFETIME_SECS == k * LIFETIME_SECS + LIFETIME_SECS) by (nonlinear_arith);
    assert((k - 1) * LIFETIME_SECS == k * LIFETIME_SECS - LIFETIME_SECS) by (nonlinear_arith);
}

/// A connection opened `elapsed_secs` ago is closed once it has lived
/// `LIFETIME_SECS + GRACE_SECS`.
pub fn should_close(elapsed_secs: u64) -> (r: bool)
    ensures
        r == closed_after(elapsed_secs as int),
{
    elapsed_secs >= LIFETIME_SECS + GRACE_SECS
}

} // verus!
