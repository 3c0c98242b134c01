//! Properties that span several functions of the library.
use crate::event::{event_code, event_data_frame, event_type_frame, spec_from_opcode, EventData, EventType};
use crate::framing::{frame_end, frame_ready};
use crate::buffer::i16_be_bytes;
use crate::console::{spec_next_selection, ClientCommand};
use crate::hexdump::{
    at_rest, decimal_digits, hex_body, spec_packet_line, spec_upper_hex, hex_byte, hex_digit, spec_feed, spec_step, zero_pad, FramerState,
};
use crate::protocol::{
    lemma_unsubscribe_absent, lemma_unsubscribe_at,
    no_duplicates, spec_protocol, spec_route, spec_subscribe, spec_unsubscribe, InternalRoute, Request,
};
use vstd::prelude::*;

verus! {

/// An event kind's wire byte reads back as that kind, and a byte that reads
/// as a kind is that kind's wire byte.
pub proof fn lemma_opcode_roundtrip(e: EventType, opcode: u8)
    ensures
        spec_from_opcode(event_code(e)) == Some(e),
        spec_from_opcode(opcode) == Some(e) ==> event_code(e) == opcode,
{
}

/// The size byte of every frame that the library writes counts the bytes
/// that follow it.
pub proof fn lemma_size_byte(e: EventType, opcode: u8, d: EventData)
    ensures
        event_type_frame(e, opcode)[0] == event_type_frame(e, opcode).len() - 1,
        event_data_frame(d)[0] == event_data_frame(d).len() - 1,
{
}

/// A size-prefixed frame read by the server gives back the body that was
/// written, and leaves what followed it in the buffer.
pub proof fn lemma_frame_roundtrip(body: Seq<u8>, rest: Seq<u8>)
    requires
        body.len() <= 255,
    ensures
        ({
            let buf = seq![body.len() as u8] + body + rest;
            &&& frame_ready(buf)
            &&& buf.subrange(1, frame_end(buf)) == body
            &&& buf.skip(frame_end(buf)) == rest
        }),
{
    let buf = seq![body.len() as u8] + body + rest;
    assert(buf.subrange(1, frame_end(buf)) =~= body);
    assert(buf.skip(frame_end(buf)) =~= rest);
}

/// A request that the client writes with opcode 0 or 1 is read by the server
/// as a subscription or an unsubscription of the same event kind.
pub proof fn lemma_request_roundtrip(e: EventType, opcode: u8, rest: Seq<u8>)
    requires
        opcode <= 1,
    ensures
        ({
            let buf = event_type_frame(e, opcode) + rest;
            &&& frame_ready(buf)
            &&& buf.skip(frame_end(buf)) == rest
            &&& spec_protocol(buf.subrange(1, frame_end(buf))) == if opcode == 0 {
                Ok::<Request, crate::protocol::ProtocolError>(Request::Subscribe(e))
            } else {
                Ok(Request::Unsubscribe(e))
            }
        }),
{
    let body = seq![opcode, event_code(e)];
    assert(event_type_frame(e, opcode) =~= seq![body.len() as u8] + body);
    lemma_frame_roundtrip(body, rest);
}

/// Asking for an event kind that is not subscribed to and then dropping it
/// gives back the subscriptions there were.
pub proof fn lemma_subscribe_unsubscribe(s: Seq<EventType>, e: EventType)
    requires
        !s.contains(e),
    ensures
        spec_unsubscribe(spec_subscribe(s, e), e) == s,
    decreases s.len(),
{
    if s.len() > 0 {
        assert(s[0] != e);
        assert(!s.drop_first().contains(e)) by {
            if s.drop_first().contains(e) {
                let j = choose|j: int| 0 <= j < s.drop_first().len() && s.drop_first()[j] == e;
                assert(s[j + 1] == e);
            }
        }
        lemma_subscribe_unsubscribe(s.drop_first(), e);
        assert(s.push(e).drop_first() =~= s.drop_first().push(e));
        assert(seq![s[0]] + s.drop_first() =~= s);
    } else {
        assert(s.push(e).drop_first() =~= s);
    }
}

/// Asking twice for an event kind is the same as asking once.
pub proof fn lemma_subscribe_idempotent(s: Seq<EventType>, e: EventType)
    ensures
        spec_subscribe(spec_subscribe(s, e), e) == spec_subscribe(s, e),
{
    if !s.contains(e) {
        assert(s.push(e)[s.len() as int] == e);
    }
}

proof fn lemma_unsubscribe_subset(s: Seq<EventType>, e: EventType)
    ensures
        forall|x: EventType| spec_unsubscribe(s, e).contains(x) ==> s.contains(x),
        spec_unsubscribe(s, e).len() <= s.len(),
    decreases s.len(),
{
    if s.len() > 0 && s[0] != e {
        lemma_unsubscribe_subset(s.drop_first(), e);
        let r = spec_unsubscribe(s.drop_first(), e);
        assert forall|x: EventType| spec_unsubscribe(s, e).contains(x) implies s.contains(x) by {
            let j = choose|j: int| 0 <= j < spec_unsubscribe(s, e).len() && spec_unsubscribe(s, e)[j] == x;
            assert(spec_unsubscribe(s, e) == seq![s[0]] + r);
            if j == 0 {
                assert(s[0] == x);
            } else {
                assert(r[j - 1] == x);
                assert(r.contains(x));
                assert(s.drop_first().contains(x));
                let k = choose|k: int| 0 <= k < s.drop_first().len() && s.drop_first()[k] == x;
                assert(s[k + 1] == x);
            }
        }
    } else if s.len() > 0 {
        assert forall|x: EventType| spec_unsubscribe(s, e).contains(x) implies s.contains(x) by {
            let j = choose|j: int| 0 <= j < s.drop_first().len() && s.drop_first()[j] == x;
            assert(s[j + 1] == x);
        }
    }
}

/// Subscribing and unsubscribing never make an event kind occur twice; an
/// unsubscribed kind is no longer there.
pub proof fn lemma_no_duplicates_kept(s: Seq<EventType>, e: EventType)
    requires
        no_duplicates(s),
    ensures
        no_duplicates(spec_subscribe(s, e)),
        no_duplicates(spec_unsubscribe(s, e)),
        !spec_unsubscribe(s, e).contains(e),
    decreases s.len(),
{
    if !s.contains(e) {
        assert forall|i: int, j: int| 0 <= i < j < s.push(e).len() implies s.push(e)[i] != s.push(e)[j] by {
            if j == s.len() {
                assert(s[i] == s.push(e)[i]);
            }
        }
    }
    if s.len() > 0 {
        let t = s.drop_first();
        assert(no_duplicates(t)) by {
            assert forall|i: int, j: int| 0 <= i < j < t.len() implies t[i] != t[j] by {
                assert(t[i] == s[i + 1] && t[j] == s[j + 1]);
            }
        }
        lemma_no_duplicates_kept(t, e);
        if s[0] == e {
            assert(!t.contains(e)) by {
                if t.contains(e) {
                    let k = choose|k: int| 0 <= k < t.len() && t[k] == e;
                    assert(s[k + 1] == s[0]);
                }
            }
        } else {
            let r = spec_unsubscribe(t, e);
            lemma_unsubscribe_subset(t, e);
            let u = seq![s[0]] + r;
            assert(!r.contains(s[0])) by {
                if r.contains(s[0]) {
                    assert(t.contains(s[0]));
                    let k = choose|k: int| 0 <= k < t.len() && t[k] == s[0];
                    assert(s[k + 1] == s[0]);
                }
            }
            assert forall|i: int, j: int| 0 <= i < j < u.len() implies u[i] != u[j] by {
                if i == 0 {
                    assert(u[j] == r[j - 1]);
                    assert(r.contains(u[j]));
                } else {
                    assert(u[i] == r[i - 1] && u[j] == r[j - 1]);
                }
            }
            assert(!u.contains(e)) by {
                if u.contains(e) {
                    let k = choose|k: int| 0 <= k < u.len() && u[k] == e;
                    if k > 0 {
                        assert(r[k - 1] == e);
                    }
                }
            }
        }
    }
}

/// A message whose first byte is not 0 and whose second byte names an event
/// kind is passed on after that kind was asked for, and held back after it
/// was dropped.
pub proof fn lemma_route_follows_subscriptions(s: Seq<EventType>, e: EventType, msg: Seq<u8>)
    requires
        no_duplicates(s),
        msg.len() >= 2,
        msg[0] != 0,
        msg[1] == event_code(e),
    ensures
        spec_route(spec_subscribe(s, e), msg) == InternalRoute::Forward(e),
        spec_route(spec_unsubscribe(s, e), msg) == InternalRoute::NotSubscribed(e),
{
    lemma_no_duplicates_kept(s, e);
    if !s.contains(e) {
        assert(s.push(e)[s.len() as int] == e);
    }
}

/// A message of a single 0 byte ends a connection whatever it subscribed to.
pub proof fn lemma_goodbye_routes_to_quit(s: Seq<EventType>)
    ensures
        spec_route(s, seq![0u8]) == InternalRoute::Quit,
{
}

/// Every published event carries the opcode 3 in the byte that the server
/// reads as the event kind, so the server files it under `PointerUp`.
pub proof fn lemma_published_events_filed_as_pointer_up(s: Seq<EventType>, d: EventData)
    ensures
        spec_route(s, event_data_frame(d)) == if s.contains(EventType::PointerUp) {
            InternalRoute::Forward(EventType::PointerUp)
        } else {
            InternalRoute::NotSubscribed(EventType::PointerUp)
        },
{
}

/// Feeding two runs of bytes one after the other is feeding their
/// concatenation.
pub proof fn lemma_feed_concat(s: FramerState, a: Seq<u8>, b: Seq<u8>)
    ensures
        ({
            let (s1, out1) = spec_feed(s, a);
            let (s2, out2) = spec_feed(s1, b);
            spec_feed(s, a + b) == (s2, out1 + out2)
        }),
    decreases b.len(),
{
    if b.len() == 0 {
        assert(a + b =~= a);
        let (s1, out1) = spec_feed(s, a);
        assert(out1 + Seq::<(nat, Seq<u8>)>::empty() =~= out1);
    } else {
        lemma_feed_concat(s, a, b.drop_last());
        assert((a + b).drop_last() =~= a + b.drop_last());
        assert((a + b).last() == b.last());
        let (s1, out1) = spec_feed(s, a);
        let (s2, out2) = spec_feed(s1, b.drop_last());
        let (s3, o) = spec_step(s2, b.last());
        match o {
            Some(x) => {
                assert((out1 + out2).push(x) =~= out1 + out2.push(x));
            },
            None => {},
        }
    }
}

proof fn lemma_feed_partial(c: nat, body: Seq<u8>, k: int)
    requires
        1 <= body.len() <= 255,
        0 <= k < body.len(),
    ensures
        spec_feed(at_rest(c), seq![body.len() as u8] + body.take(k)) =~~= (
            FramerState { len: body.len() as u8, packet: body.take(k), count: c },
            Seq::<(nat, Seq<u8>)>::empty(),
        ),
    decreases k,
{
    let n = body.len() as u8;
    if k == 0 {
        assert((seq![n] + body.take(0)).drop_last() =~= Seq::<u8>::empty());
        assert(spec_feed(at_rest(c), Seq::<u8>::empty()) == (at_rest(c), Seq::<(nat, Seq<u8>)>::empty()));
    } else {
        lemma_feed_partial(c, body, k - 1);
        assert((seq![n] + body.take(k)).drop_last() =~= seq![n] + body.take(k - 1));
        assert(body.take(k - 1).push(body[k - 1]) =~= body.take(k));
    }
}

/// The dump tool, fed a size byte and that many bytes between packets, shows
/// exactly those bytes as its next packet and waits for the next size byte.
pub proof fn lemma_feed_packet(c: nat, body: Seq<u8>)
    requires
        1 <= body.len() <= 255,
    ensures
        spec_feed(at_rest(c), seq![body.len() as u8] + body) == (at_rest(c + 1), seq![(c, body)]),
{
    let n = body.len() as u8;
    let k = body.len() - 1;
    lemma_feed_partial(c, body, k);
    assert((seq![n] + body).drop_last() =~= seq![n] + body.take(k));
    assert(body.take(k).push(body.last()) =~= body);
    assert(Seq::<(nat, Seq<u8>)>::empty().push((c, body)) =~= seq![(c, body)]);
}

/// Every event that the publisher writes is shown by the dump tool as one
/// packet: its bytes after the size byte.
pub proof fn lemma_dump_shows_published_event(c: nat, d: EventData)
    ensures
        spec_feed(at_rest(c), event_data_frame(d)) == (
            at_rest(c + 1),
            seq![(c, event_data_frame(d).skip(1))],
        ),
{
    let f = event_data_frame(d);
    let body = f.skip(1);
    assert(f =~= seq![body.len() as u8] + body);
    lemma_feed_packet(c, body);
}

/// A subscription request never drops a subscription: the requested kind is
/// there afterwards, everything that was there stays, nothing changes when
/// the kind was already there, and otherwise only that kind is added, last.
pub proof fn lemma_subscribe_keeps(s: Seq<EventType>, e: EventType)
    ensures
        spec_subscribe(s, e).contains(e),
        s.contains(e) ==> spec_subscribe(s, e) == s,
        !s.contains(e) ==> spec_subscribe(s, e).len() == s.len() + 1 && spec_subscribe(s, e).take(
            s.len() as int,
        ) == s && spec_subscribe(s, e).last() == e,
        forall|x: EventType| s.contains(x) ==> spec_subscribe(s, e).contains(x),
        forall|x: EventType| spec_subscribe(s, e).contains(x) ==> x == e || s.contains(x),
{
    let r = spec_subscribe(s, e);
    if !s.contains(e) {
        assert(r[s.len() as int] == e);
        assert(r.take(s.len() as int) =~= s);
        assert forall|x: EventType| s.contains(x) implies r.contains(x) by {
            let j = choose|j: int| 0 <= j < s.len() && s[j] == x;
            assert(r[j] == x);
        }
        assert forall|x: EventType| r.contains(x) implies x == e || s.contains(x) by {
            let j = choose|j: int| 0 <= j < r.len() && r[j] == x;
            if j < s.len() {
                assert(s[j] == x);
            }
        }
    }
}

/// Dropping a kind removes exactly its one occurrence, if there is one, and
/// keeps every other subscription in its order.
pub proof fn lemma_unsubscribe_removes_one(s: Seq<EventType>, e: EventType)
    requires
        no_duplicates(s),
    ensures
        !s.contains(e) ==> spec_unsubscribe(s, e) == s,
        s.contains(e) ==> exists|i: int|
            0 <= i < s.len() && s[i] == e && spec_unsubscribe(s, e) == s.remove(i),
        !spec_unsubscribe(s, e).contains(e),
        forall|x: EventType| x != e ==> (spec_unsubscribe(s, e).contains(x) <==> s.contains(x)),
{
    lemma_no_duplicates_kept(s, e);
    if s.contains(e) {
        let i = choose|i: int| 0 <= i < s.len() && s[i] == e;
        lemma_unsubscribe_at(s, e, i);
        let r = s.remove(i);
        assert forall|x: EventType| x != e implies (r.contains(x) <==> s.contains(x)) by {
            if r.contains(x) {
                let j = choose|j: int| 0 <= j < r.len() && r[j] == x;
                if j < i {
                    assert(s[j] == x);
                } else {
                    assert(s[j + 1] == x);
                }
            }
            if s.contains(x) {
                let j = choose|j: int| 0 <= j < s.len() && s[j] == x;
                if j < i {
                    assert(r[j] == x);
                } else {
                    assert(j != i);
                    assert(r[j - 1] == x);
                }
            }
        }
    } else {
        lemma_unsubscribe_absent(s, e);
    }
}

/// A frame whose size byte asks for more bytes than are buffered after it
/// (one short is handed out as it is) is not handed out yet; once all its
/// bytes are there it ends exactly after them.
pub proof fn lemma_partial_frame_waits(n: u8, after: Seq<u8>)
    ensures
        after.len() + 1 < n ==> !frame_ready(seq![n] + after),
        after.len() >= n ==> frame_ready(seq![n] + after) && frame_end(seq![n] + after) == n + 1,
{
}

/// Each hexadecimal digit is the character at its value in
/// `0123456789ABCDEF`, and a byte shows as its high then its low digit.
pub proof fn lemma_hex_digits(b: u8)
    ensures
        forall|n: u8| n < 16 ==> hex_digit(n) == "0123456789ABCDEF"@[n as int],
        hex_byte(b) == seq!["0123456789ABCDEF"@[(b / 16) as int], "0123456789ABCDEF"@[(b % 16) as int]],
{
    reveal_strlit("0123456789ABCDEF");
    let d = "0123456789ABCDEF"@;
    assert(hex_digit(0) == d[0]);
    assert(hex_digit(1) == d[1]);
    assert(hex_digit(2) == d[2]);
    assert(hex_digit(3) == d[3]);
    assert(hex_digit(4) == d[4]);
    assert(hex_digit(5) == d[5]);
    assert(hex_digit(6) == d[6]);
    assert(hex_digit(7) == d[7]);
    assert(hex_digit(8) == d[8]);
    assert(hex_digit(9) == d[9]);
    assert(hex_digit(10) == d[10]);
    assert(hex_digit(11) == d[11]);
    assert(hex_digit(12) == d[12]);
    assert(hex_digit(13) == d[13]);
    assert(hex_digit(14) == d[14]);
    assert(hex_digit(15) == d[15]);
    assert forall|n: u8| n < 16 implies hex_digit(n) == d[n as int] by {
        if n == 0 {} else if n == 1 {} else if n == 2 {} else if n == 3 {} else if n == 4 {
        } else if n == 5 {} else if n == 6 {} else if n == 7 {} else if n == 8 {} else if n == 9 {
        } else if n == 10 {} else if n == 11 {} else if n == 12 {} else if n == 13 {
        } else if n == 14 {} else {}
    }
}

/// The bytes shown in hexadecimal take three characters each: the high
/// digit, the low digit and a space, in the order of the bytes.
pub proof fn lemma_hex_body_layout(bytes: Seq<u8>)
    ensures
        hex_body(bytes).len() == 3 * bytes.len(),
        forall|i: int|
            0 <= i < bytes.len() ==> {
                &&& #[trigger] hex_body(bytes)[3 * i] == hex_digit(bytes[i] / 16)
                &&& hex_body(bytes)[3 * i + 1] == hex_digit(bytes[i] % 16)
                &&& hex_body(bytes)[3 * i + 2] == ' '
            },
    decreases bytes.len(),
{
    if bytes.len() > 0 {
        let p = bytes.drop_last();
        lemma_hex_body_layout(p);
        let h = hex_body(bytes);
        assert(h == hex_body(p) + hex_byte(bytes.last()) + seq![' ']);
        assert forall|i: int| 0 <= i < bytes.len() implies {
            &&& #[trigger] h[3 * i] == hex_digit(bytes[i] / 16)
            &&& h[3 * i + 1] == hex_digit(bytes[i] % 16)
            &&& h[3 * i + 2] == ' '
        } by {
            if i < p.len() {
                assert(p[i] == bytes[i]);
                assert(hex_body(p)[3 * i] == hex_digit(p[i] / 16));
            }
        }
    }
}

/// The number that a run of decimal digits stands for.
pub open spec fn digits_value(s: Seq<char>) -> int
    decreases s.len(),
{
    if s.len() == 0 {
        0
    } else {
        digits_value(s.drop_last()) * 10 + (s.last() as int - 48)
    }
}

/// The decimal digits of a number are digits, stand for that number, and do
/// not start with a zero unless the number is zero.
pub proof fn lemma_decimal_digits(n: nat)
    ensures
        digits_value(decimal_digits(n)) == n,
        decimal_digits(n).len() >= 1,
        forall|i: int|
            0 <= i < decimal_digits(n).len() ==> '0' <= #[trigger] decimal_digits(n)[i] <= '9',
        n > 0 ==> decimal_digits(n)[0] != '0',
    decreases n,
{
    if n < 10 {
        let d = decimal_digits(n);
        assert(d.drop_last() =~= Seq::<char>::empty());
        assert(d.last() as int == 48 + n);
        assert(digits_value(d.drop_last()) == 0);
    } else {
        lemma_decimal_digits(n / 10);
        let d = decimal_digits(n);
        let p = decimal_digits(n / 10);
        assert(d.drop_last() =~= p);
        assert(d.last() as int == 48 + n % 10);
        assert(digits_value(d) == digits_value(p) * 10 + n % 10);
        assert(digits_value(p) == n / 10);
        assert((n / 10) * 10 + n % 10 == n);
        assert(d[0] == p[0]);
        assert forall|i: int| 0 <= i < d.len() implies '0' <= #[trigger] d[i] <= '9' by {
            if i < p.len() {
                assert(d[i] == p[i]);
            }
        }
    }
}

/// Zero padding keeps the digits at the end, puts only zeros before them,
/// and gives at least the width.
pub proof fn lemma_zero_pad(s: Seq<char>, width: nat)
    ensures
        zero_pad(s, width).len() == if s.len() >= width { s.len() } else { width },
        zero_pad(s, width).skip(zero_pad(s, width).len() - s.len()) == s,
        forall|i: int| 0 <= i < zero_pad(s, width).len() - s.len() ==> #[trigger] zero_pad(s, width)[i] == '0',
{
    let z = zero_pad(s, width);
    assert(z.skip(z.len() - s.len()) =~= s);
}

/// A selection command makes its kind the selection whatever was selected;
/// every other command keeps the selection.
pub proof fn lemma_select_replaces(selection: Option<EventType>, cmd: ClientCommand)
    ensures
        cmd matches ClientCommand::Select(e) ==> spec_next_selection(selection, cmd) == Some(e),
        !(cmd is Select) ==> spec_next_selection(selection, cmd) == selection,
{
}

/// The two bytes of a coordinate read back, most significant first and in
/// two's complement, as that coordinate.
pub proof fn lemma_i16_be_roundtrip(x: i16)
    ensures
        ({
            let b = i16_be_bytes(x);
            let u = b[0] * 256 + b[1];
            &&& b.len() == 2
            &&& (if u >= 32768 { u - 65536 } else { u }) == x
        }),
{
}

/// A published motion event holds its pointer at byte 3, its button at
/// byte 4, its x coordinate at bytes 5 and 6 and its y coordinate at bytes
/// 7 and 8; a connect or disconnect event holds its pointer at byte 3.
pub proof fn lemma_event_data_fields(d: EventData)
    ensures
        ({
            let f = event_data_frame(d);
            match d {
                EventData::PointerConnected(id) => f.len() == 4 && f[2] == 0 && f[3] == id,
                EventData::PointerDisconnected(id) => f.len() == 4 && f[2] == 1 && f[3] == id,
                EventData::PointerDown { pointer, button, x, y } => f.len() == 9 && f[2] == 2
                    && f[3] == pointer && f[4] == button && f.subrange(5, 7) == i16_be_bytes(x)
                    && f.subrange(7, 9) == i16_be_bytes(y),
                EventData::PointerUp { pointer, button, x, y } => f.len() == 9 && f[2] == 3
                    && f[3] == pointer && f[4] == button && f.subrange(5, 7) == i16_be_bytes(x)
                    && f.subrange(7, 9) == i16_be_bytes(y),
                EventData::PointerMove { pointer, button, x, y } => f.len() == 9 && f[2] == 4
                    && f[3] == pointer && f[4] == button && f.subrange(5, 7) == i16_be_bytes(x)
                    && f.subrange(7, 9) == i16_be_bytes(y),
            }
        }),
{
    let f = event_data_frame(d);
    match d {
        EventData::PointerDown { pointer, button, x, y } => {
            assert(f.subrange(5, 7) =~= i16_be_bytes(x));
            assert(f.subrange(7, 9) =~= i16_be_bytes(y));
        },
        EventData::PointerUp { pointer, button, x, y } => {
            assert(f.subrange(5, 7) =~= i16_be_bytes(x));
            assert(f.subrange(7, 9) =~= i16_be_bytes(y));
        },
        EventData::PointerMove { pointer, button, x, y } => {
            assert(f.subrange(5, 7) =~= i16_be_bytes(x));
            assert(f.subrange(7, 9) =~= i16_be_bytes(y));
        },
        _ => {},
    }
}

/// The wire bytes of the event kinds, in the order the kinds are declared:
/// 0 to 4, and no other byte names a kind.
pub proof fn lemma_event_codes(opcode: u8)
    ensures
        event_code(EventType::PointerConnected) == 0,
        event_code(EventType::PointerDisconnected) == 1,
        event_code(EventType::PointerDown) == 2,
        event_code(EventType::PointerUp) == 3,
        event_code(EventType::PointerMove) == 4,
        spec_from_opcode(opcode) is None <==> opcode > 4,
        spec_from_opcode(opcode) matches Some(e) ==> event_code(e) == opcode,
{
}

/// The hexadecimal view of `n` bytes is `[ `, three characters per byte (its
/// high digit, its low digit, a space) and `]`.
pub proof fn lemma_upper_hex_layout(bytes: Seq<u8>)
    ensures
        spec_upper_hex(bytes).len() == 3 * bytes.len() + 3,
        spec_upper_hex(bytes)[0] == '[',
        spec_upper_hex(bytes)[1] == ' ',
        spec_upper_hex(bytes).last() == ']',
        forall|i: int|
            0 <= i < bytes.len() ==> {
                &&& #[trigger] spec_upper_hex(bytes)[3 * i + 2] == hex_digit(bytes[i] / 16)
                &&& spec_upper_hex(bytes)[3 * i + 3] == hex_digit(bytes[i] % 16)
                &&& spec_upper_hex(bytes)[3 * i + 4] == ' '
            },
{
    lemma_hex_body_layout(bytes);
    let h = hex_body(bytes);
    let u = spec_upper_hex(bytes);
    assert forall|i: int| 0 <= i < bytes.len() implies {
        &&& #[trigger] u[3 * i + 2] == hex_digit(bytes[i] / 16)
        &&& u[3 * i + 3] == hex_digit(bytes[i] % 16)
        &&& u[3 * i + 4] == ' '
    } by {
        assert(u[3 * i + 2] == h[3 * i]);
        assert(u[3 * i + 3] == h[3 * i + 1]);
        assert(u[3 * i + 4] == h[3 * i + 2]);
    }
}

/// A packet's line is `#`, the packet's number in decimal padded with zeros
/// to at least four digits, a space, and the packet in hexadecimal.
pub proof fn lemma_packet_line_layout(count: nat, packet: Seq<u8>)
    ensures
        ({
            let line = spec_packet_line(count, packet);
            let w = zero_pad(decimal_digits(count), 4).len() as int;
            &&& w >= 4
            &&& line[0] == '#'
            &&& line.subrange(1, w + 1) == zero_pad(decimal_digits(count), 4)
            &&& line[w + 1] == ' '
            &&& line.skip(w + 2) == spec_upper_hex(packet)
        }),
{
    let line = spec_packet_line(count, packet);
    let z = zero_pad(decimal_digits(count), 4);
    let w = z.len() as int;
    assert(line.subrange(1, w + 1) =~= z);
    assert(line.skip(w + 2) =~= spec_upper_hex(packet));
}

/// The dump tool skips a size byte of 0 and keeps waiting for a size byte.
pub proof fn lemma_zero_size_skipped(c: nat)
    ensures
        spec_step(at_rest(c), 0) == (at_rest(c), Option::<(nat, Seq<u8>)>::None),
{
    assert(spec_step(at_rest(c), 0).0 =~= at_rest(c));
}

} // verus!
