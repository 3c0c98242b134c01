use crate::buffer::{
    buffer_contents, buffer_freeze, buffer_put, buffer_put_i16_be, buffer_with_capacity, frozen_contents,
    i16_be_bytes,
};
use vstd::prelude::*;

verus! {

/// The kinds of pointer event that a subscriber can ask for.
#[derive(Debug, Clone, Copy, PartialEq, Eq, Structural)]
pub enum EventType {
    PointerConnected,
    PointerDisconnected,
    PointerDown,
    PointerUp,
    PointerMove,
}

/// The byte that stands for an event kind on the wire.
pub open spec fn event_code(e: EventType) -> u8 {
    match e {
        EventType::PointerConnected => 0,
        EventType::PointerDisconnected => 1,
        EventType::PointerDown => 2,
        EventType::PointerUp => 3,
        EventType::PointerMove => 4,
    }
}

/// The event kind that a byte stands for, if any.
pub open spec fn spec_from_opcode(opcode: u8) -> Option<EventType> {
    if opcode == 0 {
        Some(EventType::PointerConnected)
    } else if opcode == 1 {
        Some(EventType::PointerDisconnected)
    } else if opcode == 2 {
        Some(EventType::PointerDown)
    } else if opcode == 3 {
        Some(EventType::PointerUp)
    } else if opcode == 4 {
        Some(EventType::PointerMove)
    } else {
        None
    }
}

impl EventType {
    /// Reads an event kind from its wire byte; bytes above 4 stand for none.
    pub fn from_opcode(opcode: u8) -> (res: Option<EventType>)
        ensures
            res == spec_from_opcode(opcode),
            res is None <==> opcode > 4,
            res matches Some(e) ==> event_code(e) == opcode,
            res matches Some(e) ==> opcode == match e {
                EventType::PointerConnected => 0u8,
                EventType::PointerDisconnected => 1u8,
                EventType::PointerDown => 2u8,
                EventType::PointerUp => 3u8,
                EventType::PointerMove => 4u8,
            },
    {
        match opcode {
            0x00 => Some(EventType::PointerConnected),
            0x01 => Some(EventType::PointerDisconnected),
            0x02 => Some(EventType::PointerDown),
            0x03 => Some(EventType::PointerUp),
            0x04 => Some(EventType::PointerMove),
            _ => None,
        }
    }
}

/// The frame that asks for (`opcode` 0) or drops (`opcode` 1) an event kind:
/// a size byte that counts the bytes after it, the opcode, the event's byte.
pub open spec fn event_type_frame(e: EventType, opcode: u8) -> Seq<u8> {
    seq![2u8, opcode, event_code(e)]
}

impl EventType {
    /// Encodes a request about this event kind with the given opcode.
    pub fn bytes(&self, opcode: u8) -> (res: bytes::Bytes)
        ensures
            frozen_contents(res) == event_type_frame(*self, opcode),
            frozen_contents(res) =~= seq![
                2u8,
                opcode,
                match *self {
                    EventType::PointerConnected => 0u8,
                    EventType::PointerDisconnected => 1u8,
                    EventType::PointerDown => 2u8,
                    EventType::PointerUp => 3u8,
                    EventType::PointerMove => 4u8,
                },
            ],
    {
        let size: u8 = 2;
        let mut bytes = buffer_with_capacity((size + 1) as usize);
        let code: u8 = match self {
            EventType::PointerConnected => 0,
            EventType::PointerDisconnected => 1,
            EventType::PointerDown => 2,
            EventType::PointerUp => 3,
            EventType::PointerMove => 4,
        };
        buffer_put(&mut bytes, &[size]);
        buffer_put(&mut bytes, &[opcode]);
        buffer_put(&mut bytes, &[code]);
        let res = buffer_freeze(bytes);
        assert(frozen_contents(res) =~= event_type_frame(*self, opcode));
        res
    }
}

/// A pointer event as the publisher sends it: pointer id, and for button and
/// motion events the button index and the coordinates.
#[derive(Debug, Clone, Copy, PartialEq, Eq, Structural)]
pub enum EventData {
    PointerConnected(u8),
    PointerDisconnected(u8),
    PointerDown { pointer: u8, button: u8, x: i16, y: i16 },
    PointerUp { pointer: u8, button: u8, x: i16, y: i16 },
    PointerMove { pointer: u8, button: u8, x: i16, y: i16 },
}

/// The opcode byte that every published event carries.
pub open spec fn event_opcode() -> u8 {
    3
}

/// The frame of a pointer event with button and coordinates.
pub open spec fn motion_frame(code: u8, pointer: u8, button: u8, x: i16, y: i16) -> Seq<u8> {
    seq![8u8, event_opcode(), code, pointer, button] + i16_be_bytes(x) + i16_be_bytes(y)
}

/// The frame of a published event: a size byte that counts the bytes after
/// it, the opcode 3, the event's byte, the pointer id, and for button and
/// motion events the button index and both coordinates, big-endian.
pub open spec fn event_data_frame(d: EventData) -> Seq<u8> {
    match d {
        EventData::PointerConnected(id) => seq![3u8, event_opcode(), 0u8, id],
        EventData::PointerDisconnected(id) => seq![3u8, event_opcode(), 1u8, id],
        EventData::PointerDown { pointer, button, x, y } => motion_frame(2, pointer, button, x, y),
        EventData::PointerUp { pointer, button, x, y } => motion_frame(3, pointer, button, x, y),
        EventData::PointerMove { pointer, button, x, y } => motion_frame(4, pointer, button, x, y),
    }
}

/// Writes the frame of an event with button and coordinates.
fn put_motion(code: u8, pointer: u8, button: u8, x: i16, y: i16) -> (res: bytes::BytesMut)
    ensures
        buffer_contents(res) == motion_frame(code, pointer, button, x, y),
{
    let size: u8 = 8;
    let mut bytes = buffer_with_capacity((size + 1) as usize);
    buffer_put(&mut bytes, &[size]);
    buffer_put(&mut bytes, &[3u8]);
    buffer_put(&mut bytes, &[code]);
    buffer_put(&mut bytes, &[pointer]);
    buffer_put(&mut bytes, &[button]);
    buffer_put_i16_be(&mut bytes, x);
    buffer_put_i16_be(&mut bytes, y);
    assert(buffer_contents(bytes) =~= motion_frame(code, pointer, button, x, y));
    bytes
}

/// Writes the frame of a connect or disconnect event.
fn put_presence(code: u8, id: u8) -> (res: bytes::BytesMut)
    ensures
        buffer_contents(res) == seq![3u8, event_opcode(), code, id],
{
    let size: u8 = 3;
    let mut bytes = buffer_with_capacity((size + 1) as usize);
    buffer_put(&mut bytes, &[size]);
    buffer_put(&mut bytes, &[3u8]);
    buffer_put(&mut bytes, &[code]);
    buffer_put(&mut bytes, &[id]);
    assert(buffer_contents(bytes) =~= seq![3u8, event_opcode(), code, id]);
    bytes
}

impl EventData {
    /// Encodes the event as the publisher sends it.
    pub fn bytes(&self) -> (res: bytes::Bytes)
        ensures
            frozen_contents(res) == event_data_frame(*self),
            ({
                let f = frozen_contents(res);
                match *self {
                    EventData::PointerConnected(id) => f =~= seq![3u8, 3u8, 0u8, id],
                    EventData::PointerDisconnected(id) => f =~= seq![3u8, 3u8, 1u8, id],
                    EventData::PointerDown { pointer, button, x, y } => {
                        &&& f.len() == 9
                        &&& f.take(5) =~= seq![8u8, 3u8, 2u8, pointer, button]
                        &&& f.subrange(5, 7) =~= i16_be_bytes(x)
                        &&& f.subrange(7, 9) =~= i16_be_bytes(y)
                    },
                    EventData::PointerUp { pointer, button, x, y } => {
                        &&& f.len() == 9
                        &&& f.take(5) =~= seq![8u8, 3u8, 3u8, pointer, button]
                        &&& f.subrange(5, 7) =~= i16_be_bytes(x)
                        &&& f.subrange(7, 9) =~= i16_be_bytes(y)
                    },
                    EventData::PointerMove { pointer, button, x, y } => {
                        &&& f.len() == 9
                        &&& f.take(5) =~= seq![8u8, 3u8, 4u8, pointer, button]
                        &&& f.subrange(5, 7) =~= i16_be_bytes(x)
                        &&& f.subrange(7, 9) =~= i16_be_bytes(y)
                    },
                }
            }),
    {
        let bytes = match self {
            EventData::PointerConnected(id) => put_presence(0, *id),
            EventData::PointerDisconnected(id) => put_presence(1, *id),
            EventData::PointerDown { pointer, button, x, y } => put_motion(2, *pointer, *button, *x, *y),
            EventData::PointerUp { pointer, button, x, y } => put_motion(3, *pointer, *button, *x, *y),
            EventData::PointerMove { pointer, button, x, y } => put_motion(4, *pointer, *button, *x, *y),
        };
        buffer_freeze(bytes)
    }
}

} // verus!
