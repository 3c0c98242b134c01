use sd_rust::event::EventData;
use sd_rust::hexdump::{packet_line, upper_hex, HexFramer};

#[test]
fn upper_hex_format() {
    assert_eq!(upper_hex(&[]), "[ ]");
    assert_eq!(upper_hex(&[0x0a, 0xff, 0x00]), "[ 0A FF 00 ]");
    assert_eq!(upper_hex(&[0x9b]), "[ 9B ]");
}

#[test]
fn packet_line_format() {
    assert_eq!(packet_line(0, &[1, 2]), "#0000 [ 01 02 ]");
    assert_eq!(packet_line(42, &[0xab]), "#0042 [ AB ]");
    assert_eq!(packet_line(12345, &[]), "#12345 [ ]");
    assert_eq!(packet_line(9999, &[0]), "#9999 [ 00 ]");
}

#[test]
fn framer_emits_packets() {
    let mut f = HexFramer::new();
    let input = [2u8, 0xaa, 0xbb, 0, 1, 0x10];
    let mut out = Vec::new();
    for b in input {
        if let Some(p) = f.push_byte(b) {
            out.push(p);
        }
    }
    assert_eq!(out, vec![(0usize, vec![0xaau8, 0xbb]), (1usize, vec![0x10u8])]);
    assert_eq!(f.count(), 2);
}

#[test]
fn framer_partial_packet_held() {
    let mut f = HexFramer::new();
    assert_eq!(f.push_byte(3), None);
    assert_eq!(f.push_byte(1), None);
    assert_eq!(f.push_byte(2), None);
    assert_eq!(f.count(), 0);
    assert_eq!(f.push_byte(3), Some((0, vec![1u8, 2, 3])));
}

#[test]
fn framer_shows_published_event() {
    let mut f = HexFramer::new();
    let b = EventData::PointerUp { pointer: 0, button: 0, x: 32, y: 32 }.bytes();
    let mut out = Vec::new();
    for &x in b.iter() {
        if let Some(p) = f.push_byte(x) {
            out.push(p);
        }
    }
    assert_eq!(out, vec![(0usize, b[1..].to_vec())]);
    assert_eq!(packet_line(out[0].0, &out[0].1), "#0000 [ 03 03 00 00 00 20 00 20 ]");
}
