//! The record format of the binary log.
//!
//! Each event is written as its fields in order, little-endian and with
//! fixed-width integers: an `i64` or `u64` as 8 bytes, a string as its
//! byte length (8 bytes) and its UTF-8 bytes, the event kind as the string
//! `trade`, `depth` or `snapshot`, an option as a tag byte (0 absent, 1
//! present) followed by the value, a `bool` as one byte 0 or 1. Records
//! follow one another with no separator.
use vstd::prelude::*;
use vstd::utf8::*;
use crate::event::{Event, EventKind, EventView};

verus! {

pub open spec fn le_u64(v: u64) -> Seq<u8> {
    seq![
        v as u8,
        (v >> 8u64) as u8,
        (v >> 16u64) as u8,
        (v >> 24u64) as u8,
        (v >> 32u64) as u8,
        (v >> 40u64) as u8,
        (v >> 48u64) as u8,
        (v >> 56u64) as u8,
    ]
}

pub open spec fn from_le(b: Seq<u8>) -> u64 {
    (b[0] as u64) | ((b[1] as u64) << 8u64) | ((b[2] as u64) << 16u64) | ((b[3] as u64) << 24u64) | ((
    b[4] as u64) << 32u64) | ((b[5] as u64) << 40u64) | ((b[6] as u64) << 48u64) | ((b[7] as u64)
        << 56u64)
}

pub open spec fn enc_bool(b: bool) -> Seq<u8> {
    seq![if b { 1u8 } else { 0u8 }]
}

pub open spec fn enc_bytes(b: Seq<u8>) -> Seq<u8> {
    le_u64(b.len() as u64) + b
}

pub open spec fn enc_opt_u64(o: Option<u64>) -> Seq<u8> {
    match o {
        None => seq![0u8],
        Some(v) => seq![1u8] + le_u64(v),
    }
}

pub open spec fn enc_opt_bool(o: Option<bool>) -> Seq<u8> {
    match o {
        None => seq![0u8],
        Some(v) => seq![1u8] + enc_bool(v),
    }
}

/// The name each kind is written under.
pub open spec fn kind_name(k: EventKind) -> Seq<u8> {
    match k {
        EventKind::Trade => seq![116u8, 114, 97, 100, 101],
        EventKind::Depth => seq![100u8, 101, 112, 116, 104],
        EventKind::Snapshot => seq![115u8, 110, 97, 112, 115, 104, 111, 116],
    }
}

/// The bytes of one record.
pub open spec fn encode_event(e: EventView) -> Seq<u8> {
    le_u64(e.local_unique_id as u64) + le_u64(e.venue_timestamp as u64) + le_u64(e.gate_timestamp as u64)
        + enc_bytes(kind_name(e.event_type)) + enc_bytes(encode_utf8(e.product)) + enc_opt_u64(e.id1)
        + enc_opt_u64(e.id2) + enc_opt_bool(e.ask_not_bid) + enc_opt_bool(e.buy_not_sell) + enc_bytes(
        encode_utf8(e.price)) + enc_bytes(encode_utf8(e.quantity))
}

/// Every string of the event is short enough for its length to be written.
pub open spec fn encodable(e: EventView) -> bool {
    &&& encode_utf8(e.product).len() <= u64::MAX
    &&& encode_utf8(e.price).len() <= u64::MAX
    &&& encode_utf8(e.quantity).len() <= u64::MAX
}

pub open spec fn read_u64(b: Seq<u8>, pos: int) -> Option<(u64, int)> {
    if 0 <= pos && pos + 8 <= b.len() {
        Some((from_le(b.subrange(pos, pos + 8)), pos + 8))
    } else {
        None
    }
}

pub open spec fn read_i64(b: Seq<u8>, pos: int) -> Option<(i64, int)> {
    match read_u64(b, pos) {
        Some((v, p)) => Some((v as i64, p)),
        None => None,
    }
}

pub open spec fn read_bool(b: Seq<u8>, pos: int) -> Option<(bool, int)> {
    if 0 <= pos < b.len() && b[pos] <= 1 {
        Some((b[pos] == 1, pos + 1))
    } else {
        None
    }
}

pub open spec fn read_bytes(b: Seq<u8>, pos: int) -> Option<(Seq<u8>, int)> {
    match read_u64(b, pos) {
        Some((n, p)) => if p + n <= b.len() {
            Some((b.subrange(p, p + n), p + n))
        } else {
            None
        },
        None => None,
    }
}

pub open spec fn read_str(b: Seq<u8>, pos: int) -> Option<(Seq<char>, int)> {
    match read_bytes(b, pos) {
        Some((s, p)) => if valid_utf8(s) {
            Some((decode_utf8(s), p))
        } else {
            None
        },
        None => None,
    }
}

/// The kind written under `name`, if any.
pub open spec fn kind_of(name: Seq<u8>) -> Option<EventKind> {
    if name == kind_name(EventKind::Trade) {
        Some(EventKind::Trade)
    } else if name == kind_name(EventKind::Depth) {
        Some(EventKind::Depth)
    } else if name == kind_name(EventKind::Snapshot) {
        Some(EventKind::Snapshot)
    } else {
        None
    }
}

pub open spec fn read_opt_u64(b: Seq<u8>, pos: int) -> Option<(Option<u64>, int)> {
    if 0 <= pos < b.len() && b[pos] == 0 {
        Some((None, pos + 1))
    } else if 0 <= pos < b.len() && b[pos] == 1 {
        match read_u64(b, pos + 1) {
            Some((v, p)) => Some((Some(v), p)),
            None => None,
        }
    } else {
        None
    }
}

pub open spec fn read_opt_bool(b: Seq<u8>, pos: int) -> Option<(Option<bool>, int)> {
    if 0 <= pos < b.len() && b[pos] == 0 {
        Some((None, pos + 1))
    } else if 0 <= pos < b.len() && b[pos] == 1 {
        match read_bool(b, pos + 1) {
            Some((v, p)) => Some((Some(v), p)),
            None => None,
        }
    } else {
        None
    }
}

/// The fields of the record at the start of `b` and the number of bytes
/// they take, or `None` when `b` does not start with whole, well-formed
/// fields.
pub open spec fn decode_fields(b: Seq<u8>) -> Option<(FieldsView, int)> {
    match read_i64(b, 0) {
        None => None,
        Some((local_unique_id, p)) => match read_i64(b, p) {
            None => None,
            Some((venue_timestamp, p)) => match read_i64(b, p) {
                None => None,
                Some((gate_timestamp, p)) => match read_bytes(b, p) {
                    None => None,
                    Some((kind, p)) => match read_str(b, p) {
                        None => None,
                        Some((product, p)) => match read_opt_u64(b, p) {
                            None => None,
                            Some((id1, p)) => match read_opt_u64(b, p) {
                                None => None,
                                Some((id2, p)) => match read_opt_bool(b, p) {
                                    None => None,
                                    Some((ask_not_bid, p)) => match read_opt_bool(b, p) {
                                        None => None,
                                        Some((buy_not_sell, p)) => match read_str(b, p) {
                                            None => None,
                                            Some((price, p)) => match read_str(b, p) {
                                                None => None,
                                                Some((quantity, p)) => Some(
                                                    (
                                                        FieldsView {
                                                            local_unique_id,
                                                            venue_timestamp,
                                                            gate_timestamp,
                                                            kind,
                                                            product,
                                                            id1,
                                                            id2,
                                                            ask_not_bid,
                                                            buy_not_sell,
                                                            price,
                                                            quantity,
                                                        },
                                                        p,
                                                    ),
                                                ),
                                            },
                                        },
                                    },
                                },
                            },
                        },
                    },
                },
            },
        },
    }
}

/// The record at the start of `b` and the number of bytes it takes, or
/// `None` when `b` does not start with a whole, well-formed record.
pub open spec fn decode_event(b: Seq<u8>) -> Option<(EventView, int)> {
    match decode_fields(b) {
        None => None,
        Some((f, n)) => match kind_of(f.kind) {
            None => None,
            Some(k) => Some((event_of(f, k), n)),
        },
    }
}

/// The event whose fields are `f`, of kind `k`.
pub open spec fn event_of(f: FieldsView, k: EventKind) -> EventView {
    EventView {
        local_unique_id: f.local_unique_id,
        venue_timestamp: f.venue_timestamp,
        gate_timestamp: f.gate_timestamp,
        event_type: k,
        product: f.product,
        id1: f.id1,
        id2: f.id2,
        ask_not_bid: f.ask_not_bid,
        buy_not_sell: f.buy_not_sell,
        price: f.price,
        quantity: f.quantity,
    }
}

/// The bytes of a record's fields.
pub open spec fn encode_fields(f: FieldsView) -> Seq<u8> {
    le_u64(f.local_unique_id as u64) + le_u64(f.venue_timestamp as u64) + le_u64(f.gate_timestamp as u64)
        + enc_bytes(f.kind) + enc_bytes(encode_utf8(f.product)) + enc_opt_u64(f.id1) + enc_opt_u64(f.id2)
        + enc_opt_bool(f.ask_not_bid) + enc_opt_bool(f.buy_not_sell) + enc_bytes(encode_utf8(f.price))
        + enc_bytes(encode_utf8(f.quantity))
}

/// The fields of a record as they are written: the kind as its name.
pub struct RecordFields {
    pub local_unique_id: i64,
    pub venue_timestamp: i64,
    pub gate_timestamp: i64,
    pub kind: Vec<u8>,
    pub product: String,
    pub id1: Option<u64>,
    pub id2: Option<u64>,
    pub ask_not_bid: Option<bool>,
    pub buy_not_sell: Option<bool>,
    pub price: String,
    pub quantity: String,
}

pub struct FieldsView {
    pub local_unique_id: i64,
    pub venue_timestamp: i64,
    pub gate_timestamp: i64,
    pub kind: Seq<u8>,
    pub product: Seq<char>,
    pub id1: Option<u64>,
    pub id2: Option<u64>,
    pub ask_not_bid: Option<bool>,
    pub buy_not_sell: Option<bool>,
    pub price: Seq<char>,
    pub quantity: Seq<char>,
}

impl View for RecordFields {
    type V = FieldsView;

    open spec fn view(&self) -> FieldsView {
        FieldsView {
            local_unique_id: self.local_unique_id,
            venue_timestamp: self.venue_timestamp,
            gate_timestamp: self.gate_timestamp,
            kind: self.kind@,
            product: self.product@,
            id1: self.id1,
            id2: self.id2,
            ask_not_bid: self.ask_not_bid,
            buy_not_sell: self.buy_not_sell,
            price: self.price@,
            quantity: self.quantity@,
        }
    }
}

proof fn lemma_le_round_trip(v: u64)
    ensures
        from_le(le_u64(v)) == v,
{
    let b = le_u64(v);
    assert(b[0] == v as u8 && b[1] == (v >> 8u64) as u8 && b[2] == (v >> 16u64) as u8 && b[3] == (v
        >> 24u64) as u8 && b[4] == (v >> 32u64) as u8 && b[5] == (v >> 40u64) as u8 && b[6] == (v
        >> 48u64) as u8 && b[7] == (v >> 56u64) as u8);
    assert(((v as u8) as u64) | ((((v >> 8u64) as u8) as u64) << 8u64) | ((((v >> 16u64) as u8) as u64)
        << 16u64) | ((((v >> 24u64) as u8) as u64) << 24u64) | ((((v >> 32u64) as u8) as u64) << 32u64)
        | ((((v >> 40u64) as u8) as u64) << 40u64) | ((((v >> 48u64) as u8) as u64) << 48u64) | ((((v
        >> 56u64) as u8) as u64) << 56u64) == v) by (bit_vector);
}

proof fn lemma_read_u64(pre: Seq<u8>, v: u64, post: Seq<u8>)
    ensures
        read_u64(pre + le_u64(v) + post, pre.len() as int) == Some((v, pre.len() + 8int)),
{
    let b = pre + le_u64(v) + post;
    assert(b.subrange(pre.len() as int, pre.len() + 8int) =~= le_u64(v));
    lemma_le_round_trip(v);
}

proof fn lemma_read_i64(pre: Seq<u8>, v: i64, post: Seq<u8>)
    ensures
        read_i64(pre + le_u64(v as u64) + post, pre.len() as int) == Some((v, pre.len() + 8int)),
{
    lemma_read_u64(pre, v as u64, post);
    assert((v as u64) as i64 == v) by (bit_vector);
}

proof fn lemma_read_bytes(pre: Seq<u8>, x: Seq<u8>, post: Seq<u8>)
    requires
        x.len() <= u64::MAX,
    ensures
        read_bytes(pre + enc_bytes(x) + post, pre.len() as int) == Some((x, (pre.len() + enc_bytes(x).len()) as int)),
{
    let b = pre + enc_bytes(x) + post;
    assert(b =~= pre + le_u64(x.len() as u64) + (x + post));
    lemma_read_u64(pre, x.len() as u64, x + post);
    let p = pre.len() + 8int;
    assert(b.subrange(p, p + x.len() as int) =~= x);
}

proof fn lemma_read_str(pre: Seq<u8>, s: Seq<char>, post: Seq<u8>)
    requires
        encode_utf8(s).len() <= u64::MAX,
    ensures
        read_str(pre + enc_bytes(encode_utf8(s)) + post, pre.len() as int) == Some(
            (s, (pre.len() + enc_bytes(encode_utf8(s)).len()) as int),
        ),
{
    broadcast use {encode_utf8_valid_utf8, encode_utf8_decode_utf8};

    lemma_read_bytes(pre, encode_utf8(s), post);
}

proof fn lemma_kind_of_name(k: EventKind)
    ensures
        kind_of(kind_name(k)) == Some(k),
        kind_name(k).len() <= 8,
{
    let t = kind_name(EventKind::Trade);
    let d = kind_name(EventKind::Depth);
    let n = kind_name(EventKind::Snapshot);
    assert(t != d) by {
        assert(t[0] != d[0]);
    }
    assert(t != n) by {
        assert(t.len() != n.len());
    }
    assert(d != n) by {
        assert(d.len() != n.len());
    }
}

proof fn lemma_read_opt_u64(pre: Seq<u8>, o: Option<u64>, post: Seq<u8>)
    ensures
        read_opt_u64(pre + enc_opt_u64(o) + post, pre.len() as int) == Some(
            (o, (pre.len() + enc_opt_u64(o).len()) as int),
        ),
{
    let b = pre + enc_opt_u64(o) + post;
    assert(b[pre.len() as int] == enc_opt_u64(o)[0]);
    if let Some(v) = o {
        assert(b =~= (pre + seq![1u8]) + le_u64(v) + post);
        lemma_read_u64(pre + seq![1u8], v, post);
    }
}

proof fn lemma_read_opt_bool(pre: Seq<u8>, o: Option<bool>, post: Seq<u8>)
    ensures
        read_opt_bool(pre + enc_opt_bool(o) + post, pre.len() as int) == Some(
            (o, (pre.len() + enc_opt_bool(o).len()) as int),
        ),
{
    let b = pre + enc_opt_bool(o) + post;
    assert(b[pre.len() as int] == enc_opt_bool(o)[0]);
    if let Some(v) = o {
        assert(b[pre.len() + 1int] == enc_bool(v)[0]);
    }
}

proof fn lemma_assoc(a: Seq<u8>, b: Seq<u8>, c: Seq<u8>)
    ensures
        a + (b + c) == (a + b) + c,
{
    assert(a + (b + c) =~= (a + b) + c);
}

proof fn lemma_decode_from_reads(b: Seq<u8>, e: EventView, n1: int, n2: int, n3: int, n4: int, n5: int, n6: int, n7: int, n8: int, n9: int, n10: int, n11: int)
    requires
        read_i64(b, 0) == Some((e.local_unique_id, n1)),
        read_i64(b, n1) == Some((e.venue_timestamp, n2)),
        read_i64(b, n2) == Some((e.gate_timestamp, n3)),
        read_bytes(b, n3) == Some((kind_name(e.event_type), n4)),
        read_str(b, n4) == Some((e.product, n5)),
        read_opt_u64(b, n5) == Some((e.id1, n6)),
        read_opt_u64(b, n6) == Some((e.id2, n7)),
        read_opt_bool(b, n7) == Some((e.ask_not_bid, n8)),
        read_opt_bool(b, n8) == Some((e.buy_not_sell, n9)),
        read_str(b, n9) == Some((e.price, n10)),
        read_str(b, n10) == Some((e.quantity, n11)),
    ensures
        decode_event(b) == Some((e, n11)),
{
    lemma_kind_of_name(e.event_type);
}

proof fn lemma_field(b: Seq<u8>, k: int, e: EventView, pre: Seq<u8>, piece: Seq<u8>, post: Seq<u8>)
    requires
        b == pre + piece + post,
        encodable(e),
        0 <= k <= 10,
        k == 0 ==> piece == le_u64(e.local_unique_id as u64),
        k == 1 ==> piece == le_u64(e.venue_timestamp as u64),
        k == 2 ==> piece == le_u64(e.gate_timestamp as u64),
        k == 3 ==> piece == enc_bytes(kind_name(e.event_type)),
        k == 4 ==> piece == enc_bytes(encode_utf8(e.product)),
        k == 5 ==> piece == enc_opt_u64(e.id1),
        k == 6 ==> piece == enc_opt_u64(e.id2),
        k == 7 ==> piece == enc_opt_bool(e.ask_not_bid),
        k == 8 ==> piece == enc_opt_bool(e.buy_not_sell),
        k == 9 ==> piece == enc_bytes(encode_utf8(e.price)),
        k == 10 ==> piece == enc_bytes(encode_utf8(e.quantity)),
    ensures
        k == 0 ==> read_i64(b, pre.len() as int) == Some((e.local_unique_id, (pre.len() + piece.len()) as int)),
        k == 1 ==> read_i64(b, pre.len() as int) == Some((e.venue_timestamp, (pre.len() + piece.len()) as int)),
        k == 2 ==> read_i64(b, pre.len() as int) == Some((e.gate_timestamp, (pre.len() + piece.len()) as int)),
        k == 3 ==> read_bytes(b, pre.len() as int) == Some((kind_name(e.event_type), (pre.len() + piece.len()) as int)),
        k == 4 ==> read_str(b, pre.len() as int) == Some((e.product, (pre.len() + piece.len()) as int)),
        k == 5 ==> read_opt_u64(b, pre.len() as int) == Some((e.id1, (pre.len() + piece.len()) as int)),
        k == 6 ==> read_opt_u64(b, pre.len() as int) == Some((e.id2, (pre.len() + piece.len()) as int)),
        k == 7 ==> read_opt_bool(b, pre.len() as int) == Some((e.ask_not_bid, (pre.len() + piece.len()) as int)),
        k == 8 ==> read_opt_bool(b, pre.len() as int) == Some((e.buy_not_sell, (pre.len() + piece.len()) as int)),
        k == 9 ==> read_str(b, pre.len() as int) == Some((e.price, (pre.len() + piece.len()) as int)),
        k == 10 ==> read_str(b, pre.len() as int) == Some((e.quantity, (pre.len() + piece.len()) as int)),
{
    if k == 0 {
        lemma_read_i64(pre, e.local_unique_id, post);
    } else if k == 1 {
        lemma_read_i64(pre, e.venue_timestamp, post);
    } else if k == 2 {
        lemma_read_i64(pre, e.gate_timestamp, post);
    } else if k == 3 {
        lemma_kind_of_name(e.event_type);
        lemma_read_bytes(pre, kind_name(e.event_type), post);
    } else if k == 4 {
        lemma_read_str(pre, e.product, post);
    } else if k == 5 {
        lemma_read_opt_u64(pre, e.id1, post);
    } else if k == 6 {
        lemma_read_opt_u64(pre, e.id2, post);
    } else if k == 7 {
        lemma_read_opt_bool(pre, e.ask_not_bid, post);
    } else if k == 8 {
        lemma_read_opt_bool(pre, e.buy_not_sell, post);
    } else if k == 9 {
        lemma_read_str(pre, e.price, post);
    } else {
        lemma_read_str(pre, e.quantity, post);
    }
}

#[verifier::rlimit(100)]
proof fn lemma_decode_chain(
    e: EventView,
    f0: Seq<u8>, f1: Seq<u8>, f2: Seq<u8>, f3: Seq<u8>, f4: Seq<u8>, f5: Seq<u8>, f6: Seq<u8>, f7: Seq<u8>, f8: Seq<u8>, f9: Seq<u8>, f10: Seq<u8>,
    q0: Seq<u8>, q1: Seq<u8>, q2: Seq<u8>, q3: Seq<u8>, q4: Seq<u8>, q5: Seq<u8>, q6: Seq<u8>, q7: Seq<u8>, q8: Seq<u8>, q9: Seq<u8>, q10: Seq<u8>, q11: Seq<u8>,
    t1: Seq<u8>, t2: Seq<u8>, t3: Seq<u8>, t4: Seq<u8>, t5: Seq<u8>, t6: Seq<u8>, t7: Seq<u8>, t8: Seq<u8>, t9: Seq<u8>, t10: Seq<u8>, t11: Seq<u8>,
)
    requires
        encodable(e),
        f0 == le_u64(e.local_unique_id as u64),
        f1 == le_u64(e.venue_timestamp as u64),
        f2 == le_u64(e.gate_timestamp as u64),
        f3 == enc_bytes(kind_name(e.event_type)),
        f4 == enc_bytes(encode_utf8(e.product)),
        f5 == enc_opt_u64(e.id1),
        f6 == enc_opt_u64(e.id2),
        f7 == enc_opt_bool(e.ask_not_bid),
        f8 == enc_opt_bool(e.buy_not_sell),
        f9 == enc_bytes(encode_utf8(e.price)),
        f10 == enc_bytes(encode_utf8(e.quantity)),
        q0 == Seq::<u8>::empty(),
        q1 == q0 + f0,
        q2 == q1 + f1,
        q3 == q2 + f2,
        q4 == q3 + f3,
        q5 == q4 + f4,
        q6 == q5 + f5,
        q7 == q6 + f6,
        q8 == q7 + f7,
        q9 == q8 + f8,
        q10 == q9 + f9,
        q11 == q10 + f10,
        t1 == f1 + t2,
        t2 == f2 + t3,
        t3 == f3 + t4,
        t4 == f4 + t5,
        t5 == f5 + t6,
        t6 == f6 + t7,
        t7 == f7 + t8,
        t8 == f8 + t9,
        t9 == f9 + t10,
        t10 == f10 + t11,
    ensures
        decode_event(q11 + t11) == Some((e, q11.len() as int)),
{
    let b = q11 + t11;
    lemma_assoc(q10, f10, t11);
    lemma_assoc(q9, f9, t10);
    lemma_assoc(q8, f8, t9);
    lemma_assoc(q7, f7, t8);
    lemma_assoc(q6, f6, t7);
    lemma_assoc(q5, f5, t6);
    lemma_assoc(q4, f4, t5);
    lemma_assoc(q3, f3, t4);
    lemma_assoc(q2, f2, t3);
    lemma_assoc(q1, f1, t2);
    assert(q0 + f0 =~= f0);
    lemma_assoc(q0, f0, t1);
    lemma_field(b, 0, e, q0, f0, t1);
    lemma_field(b, 1, e, q1, f1, t2);
    lemma_field(b, 2, e, q2, f2, t3);
    lemma_field(b, 3, e, q3, f3, t4);
    lemma_field(b, 4, e, q4, f4, t5);
    lemma_field(b, 5, e, q5, f5, t6);
    lemma_field(b, 6, e, q6, f6, t7);
    lemma_field(b, 7, e, q7, f7, t8);
    lemma_field(b, 8, e, q8, f8, t9);
    lemma_field(b, 9, e, q9, f9, t10);
    lemma_field(b, 10, e, q10, f10, t11);
    lemma_decode_from_reads(b, e, q1.len() as int, q2.len() as int, q3.len() as int, q4.len() as int, q5.len() as int, q6.len() as int, q7.len() as int, q8.len() as int, q9.len() as int, q10.len() as int, q11.len() as int);
}

proof fn lemma_decode_pieces(
    e: EventView,
    f0: Seq<u8>, f1: Seq<u8>, f2: Seq<u8>, f3: Seq<u8>, f4: Seq<u8>, f5: Seq<u8>, f6: Seq<u8>, f7: Seq<u8>, f8: Seq<u8>, f9: Seq<u8>, f10: Seq<u8>,
    rest: Seq<u8>,
)
    requires
        encodable(e),
        f0 == le_u64(e.local_unique_id as u64),
        f1 == le_u64(e.venue_timestamp as u64),
        f2 == le_u64(e.gate_timestamp as u64),
        f3 == enc_bytes(kind_name(e.event_type)),
        f4 == enc_bytes(encode_utf8(e.product)),
        f5 == enc_opt_u64(e.id1),
        f6 == enc_opt_u64(e.id2),
        f7 == enc_opt_bool(e.ask_not_bid),
        f8 == enc_opt_bool(e.buy_not_sell),
        f9 == enc_bytes(encode_utf8(e.price)),
        f10 == enc_bytes(encode_utf8(e.quantity)),
    ensures
        decode_event(f0 + f1 + f2 + f3 + f4 + f5 + f6 + f7 + f8 + f9 + f10 + rest) == Some(
            (e, (f0 + f1 + f2 + f3 + f4 + f5 + f6 + f7 + f8 + f9 + f10).len() as int),
        ),
{
    let q0 = Seq::<u8>::empty();
    let q1 = q0 + f0;
    assert(q1 =~= f0);
    let q2 = q1 + f1;
    let q3 = q2 + f2;
    let q4 = q3 + f3;
    let q5 = q4 + f4;
    let q6 = q5 + f5;
    let q7 = q6 + f6;
    let q8 = q7 + f7;
    let q9 = q8 + f8;
    let q10 = q9 + f9;
    let q11 = q10 + f10;
    assert(q11 == f0 + f1 + f2 + f3 + f4 + f5 + f6 + f7 + f8 + f9 + f10);
    let t11 = rest;
    let t10 = f10 + t11;
    let t9 = f9 + t10;
    let t8 = f8 + t9;
    let t7 = f7 + t8;
    let t6 = f6 + t7;
    let t5 = f5 + t6;
    let t4 = f4 + t5;
    let t3 = f3 + t4;
    let t2 = f2 + t3;
    let t1 = f1 + t2;
    lemma_decode_chain(e, f0, f1, f2, f3, f4, f5, f6, f7, f8, f9, f10, q0, q1, q2, q3, q4, q5, q6, q7, q8, q9, q10, q11, t1, t2, t3, t4, t5, t6, t7, t8, t9, t10, t11);
}

/// Decoding the bytes of a record, whatever follows them, gives back the
/// record and the number of bytes it takes.
pub proof fn law_decode_encode(e: EventView, rest: Seq<u8>)
    requires
        encodable(e),
    ensures
        decode_event(encode_event(e) + rest) == Some((e, encode_event(e).len() as int)),
{
    lemma_decode_pieces(
        e,
        le_u64(e.local_unique_id as u64),
        le_u64(e.venue_timestamp as u64),
        le_u64(e.gate_timestamp as u64),
        enc_bytes(kind_name(e.event_type)),
        enc_bytes(encode_utf8(e.product)),
        enc_opt_u64(e.id1),
        enc_opt_u64(e.id2),
        enc_opt_bool(e.ask_not_bid),
        enc_opt_bool(e.buy_not_sell),
        enc_bytes(encode_utf8(e.price)),
        enc_bytes(encode_utf8(e.quantity)),
        rest,
    );
}

proof fn lemma_fields_length(b: Seq<u8>)
    requires
        decode_fields(b) is Some,
    ensures
        decode_fields(b).unwrap().1 == encode_fields(decode_fields(b).unwrap().0).len(),
{
    broadcast use decode_utf8_encode_utf8;

}

/// Relies on bincode 1's `serialize` (fixed-width little-endian integers,
/// a `u64` length before each string or byte vector, a 0/1 tag before an
/// option's value, a 0/1 byte for a `bool`, tuple fields in order with
/// nothing between). Writing into a vector cannot fail: the default options
/// set no size limit.
#[verifier::external_body]
fn bincode_serialize(f: &RecordFields) -> (r: Vec<u8>)
    ensures
        r@ == encode_fields(f@),
{
    let t = (
        f.local_unique_id, f.venue_timestamp, f.gate_timestamp, &f.kind, &f.product, f.id1, f.id2,
        f.ask_not_bid, f.buy_not_sell, &f.price, &f.quantity,
    );
    match bincode::serialize(&t) {
        Ok(b) => b,
        Err(_) => Vec::new(),
    }
}

/// Relies on bincode 1's `deserialize` on a byte slice, in the layout of
/// `bincode_serialize`: it reads the fields from the start of the slice and
/// ignores what follows; it fails on a short slice, a tag or `bool` byte
/// other than 0 or 1, or a string that is not UTF-8.
#[verifier::external_body]
fn bincode_deserialize(b: &[u8]) -> (r: Option<RecordFields>)
    ensures
        match r {
            Some(f) => decode_fields(b@) matches Some((v, _)) && v == f@,
            None => decode_fields(b@) is None,
        },
{
    let t: bincode::Result<(i64, i64, i64, Vec<u8>, String, Option<u64>, Option<u64>, Option<bool>, Option<bool>, String, String)> =
        bincode::deserialize(b);
    match t {
        Ok((a, v, g, kind, product, id1, id2, ask_not_bid, buy_not_sell, price, quantity)) => Some(RecordFields {
            local_unique_id: a, venue_timestamp: v, gate_timestamp: g, kind, product, id1, id2, ask_not_bid,
            buy_not_sell, price, quantity,
        }),
        Err(_) => None,
    }
}

fn kind_bytes(k: EventKind) -> (r: Vec<u8>)
    ensures
        r@ == kind_name(k),
{
    let r = match k {
        EventKind::Trade => vec![116u8, 114, 97, 100, 101],
        EventKind::Depth => vec![100u8, 101, 112, 116, 104],
        EventKind::Snapshot => vec![115u8, 110, 97, 112, 115, 104, 111, 116],
    };
    assert(r@ =~= kind_name(k));
    r
}

fn bytes_equal(a: &Vec<u8>, b: &Vec<u8>) -> (r: bool)
    ensures
        r == (a@ == b@),
{
    if a.len() != b.len() {
        return false;
    }
    let mut i: usize = 0;
    while i < a.len()
        invariant
            a@.len() == b@.len(),
            i <= a@.len(),
            forall|k: int| 0 <= k < i ==> a@[k] == b@[k],
        decreases a@.len() - i,
    {
        if a[i] != b[i] {
            return false;
        }
        i += 1;
    }
    assert(a@ =~= b@);
    true
}

/// The kind written under `name`.
fn kind_from(name: &Vec<u8>) -> (r: Option<EventKind>)
    ensures
        r == kind_of(name@),
{
    if bytes_equal(name, &kind_bytes(EventKind::Trade)) {
        Some(EventKind::Trade)
    } else if bytes_equal(name, &kind_bytes(EventKind::Depth)) {
        Some(EventKind::Depth)
    } else if bytes_equal(name, &kind_bytes(EventKind::Snapshot)) {
        Some(EventKind::Snapshot)
    } else {
        None
    }
}

impl Event {
    /// The bytes of this event's record.
    pub fn as_bytes(&self) -> (r: Vec<u8>)
        ensures
            r@ == encode_event(self@),
    {
        let f = RecordFields {
            local_unique_id: self.local_unique_id,
            venue_timestamp: self.venue_timestamp,
            gate_timestamp: self.gate_timestamp,
            kind: kind_bytes(self.event_type),
            product: self.product.clone(),
            id1: self.id1,
            id2: self.id2,
            ask_not_bid: self.ask_not_bid,
            buy_not_sell: self.buy_not_sell,
            price: self.price.clone(),
            quantity: self.quantity.clone(),
        };
        bincode_serialize(&f)
    }

    /// The record at the start of `bytes` and the number of bytes it takes,
    /// or `None` when `bytes` does not start with a whole, well-formed record.
    pub fn from_bytes(bytes: &[u8]) -> (r: Option<(Event, usize)>)
        ensures
            match r {
                Some((e, n)) => decode_event(bytes@) == Some((e@, n as int)),
                None => decode_event(bytes@) is None,
            },
    {
        let f = match bincode_deserialize(bytes) {
            Some(f) => f,
            None => return None,
        };
        let k = match kind_from(&f.kind) {
            Some(k) => k,
            None => return None,
        };
        proof {
            lemma_fields_length(bytes@);
        }
        let n = bincode_serialize(&f).len();
        Some(
            (
                Event {
                    local_unique_id: f.local_unique_id,
                    venue_timestamp: f.venue_timestamp,
                    gate_timestamp: f.gate_timestamp,
                    event_type: k,
                    product: f.product,
                    id1: f.id1,
                    id2: f.id2,
                    ask_not_bid: f.ask_not_bid,
                    buy_not_sell: f.buy_not_sell,
                    price: f.price,
                    quantity: f.quantity,
                },
                n,
            ),
        )
    }
}

} // verus!
