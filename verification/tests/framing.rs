use bytes::{BufMut, BytesMut};
use sd_rust::event::EventType;
use sd_rust::framing::{buffer_frame, next_frame, Codec, FramePoll};
use sd_rust::protocol::{protocol, Request};

fn frame_of(p: FramePoll) -> Vec<u8> {
    match p {
        FramePoll::Frame(f) => f.to_vec(),
        FramePoll::Pending => panic!("pending"),
        FramePoll::Closed => panic!("closed"),
    }
}

#[test]
fn next_frame_takes_one_frame() {
    let mut rd = BytesMut::from(&[2u8, 0, 3, 2, 1, 4][..]);
    assert_eq!(frame_of(next_frame(&mut rd, false)), vec![0u8, 3]);
    assert_eq!(&rd[..], &[2u8, 1, 4][..]);
    assert_eq!(frame_of(next_frame(&mut rd, false)), vec![1u8, 4]);
    assert!(rd.is_empty());
}

#[test]
fn next_frame_waits_for_more() {
    let mut rd = BytesMut::from(&[5u8, 1, 2][..]);
    assert!(matches!(next_frame(&mut rd, false), FramePoll::Pending));
    assert_eq!(&rd[..], &[5u8, 1, 2][..]);
    assert!(matches!(next_frame(&mut rd, true), FramePoll::Pending));
}

#[test]
fn next_frame_empty_buffer() {
    let mut rd = BytesMut::new();
    assert!(matches!(next_frame(&mut rd, false), FramePoll::Pending));
    assert!(matches!(next_frame(&mut rd, true), FramePoll::Closed));
}

#[test]
fn next_frame_size_equal_to_buffered_length() {
    let mut rd = BytesMut::from(&[3u8, 7, 8][..]);
    assert_eq!(frame_of(next_frame(&mut rd, false)), vec![7u8, 8]);
    assert!(rd.is_empty());
    let mut rd = BytesMut::from(&[1u8][..]);
    assert_eq!(frame_of(next_frame(&mut rd, false)), Vec::<u8>::new());
    assert!(rd.is_empty());
}

#[test]
fn next_frame_zero_size() {
    let mut rd = BytesMut::from(&[0u8, 9][..]);
    assert_eq!(frame_of(next_frame(&mut rd, false)), Vec::<u8>::new());
    assert_eq!(&rd[..], &[9u8][..]);
}

#[test]
fn request_roundtrip_through_server_framing() {
    let mut rd = BytesMut::new();
    rd.extend_from_slice(&EventType::PointerMove.bytes(0)[..]);
    rd.extend_from_slice(&EventType::PointerDown.bytes(1)[..]);
    let f = frame_of(next_frame(&mut rd, false));
    assert_eq!(protocol(&f), Ok(Request::Subscribe(EventType::PointerMove)));
    let f = frame_of(next_frame(&mut rd, false));
    assert_eq!(protocol(&f), Ok(Request::Unsubscribe(EventType::PointerDown)));
    assert!(rd.is_empty());
}

#[test]
fn buffer_frame_appends() {
    let mut wr = BytesMut::new();
    buffer_frame(&mut wr, &[1, 2, 3]);
    buffer_frame(&mut wr, &[]);
    buffer_frame(&mut wr, &[4]);
    assert_eq!(&wr[..], &[1u8, 2, 3, 4][..]);
}

#[test]
fn codec_decode_takes_everything() {
    let mut c = Codec;
    let mut buf = BytesMut::from(&[9u8, 8, 7][..]);
    let m = c.decode(&mut buf).unwrap();
    assert_eq!(&m[..], &[9u8, 8, 7][..]);
    assert!(buf.is_empty());
    assert!(c.decode(&mut buf).is_none());
}

#[test]
fn codec_encode_then_decode() {
    let mut c = Codec;
    let mut buf = BytesMut::with_capacity(16);
    buf.put_u8(5);
    c.encode(EventType::PointerUp.bytes(1), &mut buf);
    assert_eq!(&buf[..], &[5u8, 2, 1, 3][..]);
    let m = c.decode(&mut buf).unwrap();
    assert_eq!(&m[..], &[5u8, 2, 1, 3][..]);
}
