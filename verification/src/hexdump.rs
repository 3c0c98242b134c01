//! The packet dump tool: it cuts its input into size-prefixed packets and
//! shows each as numbered upper-case hexadecimal.
use vstd::prelude::*;

verus! {

/// `String::push`: appends one character.
#[verifier::external_body]
fn push_char(s: &mut String, c: char)
    ensures
        final(s)@ == old(s)@.push(c),
{
    s.push(c)
}

/// The upper-case hexadecimal digit of a number below 16.
pub open spec fn hex_digit(n: u8) -> char
    recommends
        n < 16,
{
    if n < 10 {
        (48 + n) as char
    } else {
        (55 + n) as char
    }
}

/// The two hexadecimal digits of a byte, high digit first.
pub open spec fn hex_byte(b: u8) -> Seq<char> {
    seq![hex_digit(b / 16), hex_digit(b % 16)]
}

/// Each byte as two digits followed by a space.
pub open spec fn hex_body(bytes: Seq<u8>) -> Seq<char>
    decreases bytes.len(),
{
    if bytes.len() == 0 {
        Seq::empty()
    } else {
        hex_body(bytes.drop_last()) + hex_byte(bytes.last()) + seq![' ']
    }
}

/// The bytes in brackets: `[ `, each byte as two upper-case hexadecimal
/// digits and a space, then `]`.
pub open spec fn spec_upper_hex(bytes: Seq<u8>) -> Seq<char> {
    seq!['[', ' '] + hex_body(bytes) + seq![']']
}

/// The decimal digits of a number, without leading zeros (`0` for zero).
pub open spec fn decimal_digits(n: nat) -> Seq<char>
    decreases n,
{
    if n < 10 {
        seq![(48 + n) as char]
    } else {
        decimal_digits(n / 10) + seq![(48 + n % 10) as char]
    }
}

/// `width - s.len()` zeros before `s`, or `s` itself when it is not shorter.
pub open spec fn zero_pad(s: Seq<char>, width: nat) -> Seq<char> {
    if s.len() >= width {
        s
    } else {
        Seq::new((width - s.len()) as nat, |i: int| '0') + s
    }
}

/// The line that shows one packet: `#`, its number in decimal padded with
/// zeros to four digits, a space, and the packet in hexadecimal.
pub open spec fn spec_packet_line(count: nat, packet: Seq<u8>) -> Seq<char> {
    seq!['#'] + zero_pad(decimal_digits(count), 4) + seq![' '] + spec_upper_hex(packet)
}

fn hex_digit_char(n: u8) -> (c: char)
    requires
        n < 16,
    ensures
        c == hex_digit(n),
{
    if n < 10 {
        (48 + n) as char
    } else {
        (55 + n) as char
    }
}

fn push_upper_hex(s: &mut String, bytes: &[u8])
    ensures
        final(s)@ == old(s)@ + spec_upper_hex(bytes@),
{
    push_char(s, '[');
    push_char(s, ' ');
    let ghost start = s@;
    let mut i: usize = 0;
    while i < bytes.len()
        invariant
            0 <= i <= bytes@.len(),
            s@ == start + hex_body(bytes@.take(i as int)),
        decreases bytes@.len() - i,
    {
        let b = bytes[i];
        push_char(s, hex_digit_char(b / 16));
        push_char(s, hex_digit_char(b % 16));
        push_char(s, ' ');
        assert(bytes@.take(i + 1).drop_last() =~= bytes@.take(i as int));
        i = i + 1;
        assert(s@ =~= start + hex_body(bytes@.take(i as int)));
    }
    assert(bytes@.take(i as int) =~= bytes@);
    push_char(s, ']');
    assert(s@ =~= old(s)@ + spec_upper_hex(bytes@));
}

/// Shows bytes in brackets as upper-case hexadecimal, each byte followed by
/// a space: `[ 0A FF ]`.
pub fn upper_hex(bytes: &[u8]) -> (res: String)
    ensures
        res@ == spec_upper_hex(bytes@),
{
    let mut s = String::new();
    push_upper_hex(&mut s, bytes);
    assert(s@ =~= spec_upper_hex(bytes@));
    s
}

fn push_decimal(s: &mut String, n: usize)
    ensures
        final(s)@ == old(s)@ + decimal_digits(n as nat),
    decreases n,
{
    if n >= 10 {
        push_decimal(s, n / 10);
    }
    push_char(s, ((48 + n % 10) as u8) as char);
    assert(final(s)@ =~= old(s)@ + decimal_digits(n as nat)) by {
        if n < 10 {
            assert(n % 10 == n);
        }
    }
}

fn decimal_len(n: usize) -> (res: usize)
    ensures
        res == decimal_digits(n as nat).len(),
        n >= 1 ==> res <= n,
        res >= 1,
    decreases n,
{
    if n < 10 {
        1
    } else {
        let r = decimal_len(n / 10);
        r + 1
    }
}

/// The line that shows one packet: `#0007 [ 01 02 ]`.
pub fn packet_line(count: usize, packet: &[u8]) -> (res: String)
    ensures
        res@ == spec_packet_line(count as nat, packet@),
{
    let mut s = String::new();
    push_char(&mut s, '#');
    let digits = decimal_len(count);
    let mut pad: usize = 0;
    let ghost start = s@;
    if digits < 4 {
        while pad < 4 - digits
            invariant
                digits < 4,
                0 <= pad <= 4 - digits,
                s@ == start + Seq::new(pad as nat, |i: int| '0'),
            decreases 4 - digits - pad,
        {
            push_char(&mut s, '0');
            pad = pad + 1;
            assert(s@ =~= start + Seq::new(pad as nat, |i: int| '0'));
        }
    }
    push_decimal(&mut s, count);
    push_char(&mut s, ' ');
    push_upper_hex(&mut s, packet);
    assert(s@ =~= spec_packet_line(count as nat, packet@));
    s
}

/// The state of the dump tool between two input bytes.
#[verifier::ext_equal]
pub struct FramerState {
    /// The size of the packet being read; 0 while a size byte is awaited.
    pub len: u8,
    /// The bytes of the packet read so far.
    pub packet: Seq<u8>,
    /// The number of packets shown so far.
    pub count: nat,
}

/// A state between packets, after `count` of them.
pub open spec fn at_rest(count: nat) -> FramerState {
    FramerState { len: 0, packet: Seq::empty(), count }
}

/// One input byte: while a size byte is awaited it becomes the size (a size
/// of 0 awaits another); else it joins the packet, and a packet that reaches
/// its size is shown, numbered, and the tool awaits the next size byte.
pub open spec fn spec_step(s: FramerState, b: u8) -> (FramerState, Option<(nat, Seq<u8>)>) {
    if s.len == 0 {
        (FramerState { len: b, ..s }, None)
    } else {
        let p = s.packet.push(b);
        if p.len() == s.len {
            (at_rest(s.count + 1), Some((s.count, p)))
        } else {
            (FramerState { packet: p, ..s }, None)
        }
    }
}

/// The packets that a run of input bytes completes, each with its number,
/// and the state after them.
pub open spec fn spec_feed(s: FramerState, bytes: Seq<u8>) -> (FramerState, Seq<(nat, Seq<u8>)>)
    decreases bytes.len(),
{
    if bytes.len() == 0 {
        (s, Seq::empty())
    } else {
        let (s1, out) = spec_feed(s, bytes.drop_last());
        let (s2, o) = spec_step(s1, bytes.last());
        match o {
            Some(x) => (s2, out.push(x)),
            None => (s2, out),
        }
    }
}

/// A state that the tool can be in: no packet bytes while a size byte is
/// awaited, and fewer bytes than the size otherwise.
pub open spec fn framer_wf(s: FramerState) -> bool {
    if s.len == 0 {
        s.packet.len() == 0
    } else {
        s.packet.len() < s.len
    }
}

/// The packet dump tool's framer.
pub struct HexFramer {
    len: u8,
    packet: Vec<u8>,
    count: usize,
}

impl View for HexFramer {
    type V = FramerState;

    closed spec fn view(&self) -> FramerState {
        FramerState { len: self.len, packet: self.packet@, count: self.count as nat }
    }
}

impl HexFramer {
    #[verifier::type_invariant]
    spec fn inv(self) -> bool {
        framer_wf(self@)
    }

    /// A framer that awaits the first size byte.
    pub fn new() -> (res: Self)
        ensures
            res@ == at_rest(0),
    {
        HexFramer { len: 0, packet: Vec::new(), count: 0 }
    }

    /// Whether the next byte completes a packet.
    pub open spec fn completes_packet(&self) -> bool {
        self@.len != 0 && self@.packet.len() + 1 == self@.len
    }

    /// Whether the next byte completes a packet.
    pub fn completes_with_next(&self) -> (res: bool)
        ensures
            res == self.completes_packet(),
    {
        proof {
            use_type_invariant(self);
        }
        self.len != 0 && self.packet.len() + 1 == self.len as usize
    }

    /// The number of packets shown so far.
    pub fn count(&self) -> (res: usize)
        ensures
            res == self@.count,
    {
        self.count
    }

    /// Feeds one input byte; a packet that it completes comes back with its
    /// number. The packet count must not pass `usize::MAX`.
    pub fn push_byte(&mut self, byte: u8) -> (res: Option<(usize, Vec<u8>)>)
        requires
            old(self).completes_packet() ==> old(self)@.count < usize::MAX,
        ensures
            framer_wf(final(self)@),
            final(self)@ == spec_step(old(self)@, byte).0,
            match spec_step(old(self)@, byte).1 {
                None => res is None,
                Some((c, p)) => res matches Some((rc, rp)) && rc == c && rp@ == p,
            },
    {
        proof {
            use_type_invariant(&*self);
        }
        if self.len == 0 {
            self.len = byte;
            assert(self@ =~= spec_step(old(self)@, byte).0);
            return None;
        }
        let mut packet: Vec<u8> = Vec::new();
        std::mem::swap(&mut packet, &mut self.packet);
        packet.push(byte);
        if packet.len() == self.len as usize {
            let count = self.count;
            self.count = count + 1;
            self.len = 0;
            assert(self@ =~= spec_step(old(self)@, byte).0);
            Some((count, packet))
        } else {
            self.packet = packet;
            assert(self@ =~= spec_step(old(self)@, byte).0);
            None
        }
    }
}

} // verus!
