use sd_rust::event::{EventData, EventType};

#[test]
fn from_opcode_reads_each_kind() {
    assert_eq!(EventType::from_opcode(0), Some(EventType::PointerConnected));
    assert_eq!(EventType::from_opcode(1), Some(EventType::PointerDisconnected));
    assert_eq!(EventType::from_opcode(2), Some(EventType::PointerDown));
    assert_eq!(EventType::from_opcode(3), Some(EventType::PointerUp));
    assert_eq!(EventType::from_opcode(4), Some(EventType::PointerMove));
}

#[test]
fn from_opcode_refuses_other_bytes() {
    assert_eq!(EventType::from_opcode(5), None);
    assert_eq!(EventType::from_opcode(0x7f), None);
    assert_eq!(EventType::from_opcode(0xff), None);
}

#[test]
fn event_type_bytes_subscribe_frame() {
    let b = EventType::PointerDown.bytes(0);
    assert_eq!(&b[..], &[2u8, 0, 2][..]);
}

#[test]
fn event_type_bytes_unsubscribe_frame() {
    let b = EventType::PointerMove.bytes(1);
    assert_eq!(&b[..], &[2u8, 1, 4][..]);
    let b = EventType::PointerConnected.bytes(1);
    assert_eq!(&b[..], &[2u8, 1, 0][..]);
}

#[test]
fn event_type_bytes_keeps_any_opcode() {
    let b = EventType::PointerUp.bytes(0xab);
    assert_eq!(&b[..], &[2u8, 0xab, 3][..]);
}

#[test]
fn event_data_presence_frames() {
    let b = EventData::PointerConnected(7).bytes();
    assert_eq!(&b[..], &[3u8, 3, 0, 7][..]);
    let b = EventData::PointerDisconnected(0).bytes();
    assert_eq!(&b[..], &[3u8, 3, 1, 0][..]);
}

#[test]
fn event_data_motion_frames_big_endian() {
    let b = EventData::PointerDown { pointer: 1, button: 2, x: 0x0102, y: 16 }.bytes();
    assert_eq!(&b[..], &[8u8, 3, 2, 1, 2, 0x01, 0x02, 0x00, 0x10][..]);
    let b = EventData::PointerUp { pointer: 0, button: 0, x: 32, y: 32 }.bytes();
    assert_eq!(&b[..], &[8u8, 3, 3, 0, 0, 0, 32, 0, 32][..]);
    let b = EventData::PointerMove { pointer: 9, button: 1, x: 24, y: 24 }.bytes();
    assert_eq!(&b[..], &[8u8, 3, 4, 9, 1, 0, 24, 0, 24][..]);
}

#[test]
fn event_data_negative_coordinates() {
    let b = EventData::PointerMove { pointer: 0, button: 0, x: -1, y: -32768 }.bytes();
    assert_eq!(&b[..], &[8u8, 3, 4, 0, 0, 0xff, 0xff, 0x80, 0x00][..]);
    let b = EventData::PointerDown { pointer: 0, button: 0, x: 32767, y: -256 }.bytes();
    assert_eq!(&b[..], &[8u8, 3, 2, 0, 0, 0x7f, 0xff, 0xff, 0x00][..]);
}

#[test]
fn size_byte_counts_following_bytes() {
    let frames = vec![
        EventType::PointerUp.bytes(0),
        EventData::PointerConnected(1).bytes(),
        EventData::PointerUp { pointer: 1, button: 1, x: 5, y: 6 }.bytes(),
    ];
    for f in frames {
        assert_eq!(f[0] as usize, f.len() - 1);
    }
}

#[test]
fn opcode_roundtrip_each_kind() {
    for e in [
        EventType::PointerConnected,
        EventType::PointerDisconnected,
        EventType::PointerDown,
        EventType::PointerUp,
        EventType::PointerMove,
    ] {
        let b = e.bytes(0);
        assert_eq!(EventType::from_opcode(b[2]), Some(e));
    }
}
