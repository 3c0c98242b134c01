//! Cutting a byte stream into size-prefixed frames, and the codecs of the two
//! ends of a connection.
use crate::buffer::{
    buffer_as_slice, buffer_contents, buffer_is_empty, buffer_len, buffer_put, buffer_reserve,
    buffer_room, buffer_split_to, frozen_as_slice, frozen_contents,
};
use vstd::prelude::*;

verus! {

/// What the server's read side yields after reading from the socket.
pub enum FramePoll {
    /// The body of the next frame, its size byte taken off.
    Frame(bytes::BytesMut),
    /// No whole frame is buffered yet and the socket is open.
    Pending,
    /// Nothing is buffered and the socket has closed.
    Closed,
}

/// Where the first frame of a non-empty buffer ends: after its size byte and
/// as many bytes as that byte says, or at the end of what is buffered if
/// fewer are there.
pub open spec fn frame_end(buf: Seq<u8>) -> int {
    if buf[0] + 1 <= buf.len() {
        buf[0] + 1
    } else {
        buf.len() as int
    }
}

/// Whether the server hands out the first frame of the buffer now: the
/// buffer is not empty and holds at least as many bytes as its size byte
/// says, the size byte itself counted among them.
pub open spec fn frame_ready(buf: Seq<u8>) -> bool {
    buf.len() > 0 && buf.len() >= buf[0]
}

/// Takes the next frame off the read buffer of a server connection.
///
/// A frame is handed out once the buffer holds at least as many bytes as its
/// size byte says, the size byte counted. When the size byte equals the
/// number of buffered bytes, the frame handed out is the one byte shorter
/// body that is there.
pub fn next_frame(rd: &mut bytes::BytesMut, sock_closed: bool) -> (res: FramePoll)
    ensures
        ({
            let buf = buffer_contents(*old(rd));
            if buf.len() == 0 {
                &&& buffer_contents(*final(rd)) == buf
                &&& if sock_closed { res is Closed } else { res is Pending }
            } else if frame_ready(buf) {
                &&& res matches FramePoll::Frame(f) && buffer_contents(f) == buf.subrange(1, frame_end(buf))
                &&& buffer_contents(*final(rd)) == buf.skip(frame_end(buf))
            } else {
                &&& res is Pending
                &&& buffer_contents(*final(rd)) == buf
            }
        }),
        ({
            let buf = buffer_contents(*old(rd));
            &&& res is Frame ==> buf.len() > 0 && buf.len() >= buf[0]
            &&& (buf.len() > 0 && buf.len() < buf[0]) ==> (res is Pending && buffer_contents(
                *final(rd),
            ) == buf)
            &&& (buf.len() > 0 && buf[0] < buf.len()) ==> (res matches FramePoll::Frame(f)
                && buffer_contents(f) == buf.subrange(1, buf[0] + 1) && buffer_contents(*final(rd))
                == buf.skip(buf[0] + 1))
            &&& (buf.len() > 0 && buf[0] == buf.len()) ==> (res matches FramePoll::Frame(f)
                && buffer_contents(f) == buf.skip(1) && buffer_contents(*final(rd)).len() == 0)
        }),
{
    let ghost buf = buffer_contents(*rd);
    if !buffer_is_empty(rd) {
        let len = buffer_as_slice(rd)[0] as usize;
        if buffer_len(rd) >= len {
            let _ = buffer_split_to(rd, 1);
            let avail = buffer_len(rd);
            let take = if avail < len {
                avail
            } else {
                len
            };
            let frame = buffer_split_to(rd, take);
            assert(buffer_contents(frame) =~= buf.subrange(1, frame_end(buf)));
            assert(buffer_contents(*rd) =~= buf.skip(frame_end(buf)));
            return FramePoll::Frame(frame);
        } else {
            return FramePoll::Pending;
        }
    }
    if sock_closed {
        FramePoll::Closed
    } else {
        FramePoll::Pending
    }
}

/// Appends a frame to the write buffer of a server connection, making room
/// for it first.
pub fn buffer_frame(wr: &mut bytes::BytesMut, frame: &[u8])
    requires
        buffer_contents(*old(wr)).len() + frame@.len() <= isize::MAX,
    ensures
        buffer_contents(*final(wr)) == buffer_contents(*old(wr)) + frame@,
{
    buffer_reserve(wr, frame.len());
    buffer_put(wr, frame);
}

/// The codec of the subscribing client: whatever has arrived is one message,
/// and whatever is sent is written as it is.
pub struct Codec;

impl Codec {
    /// Takes everything buffered as one message, if anything is.
    pub fn decode(&mut self, buf: &mut bytes::BytesMut) -> (res: Option<bytes::BytesMut>)
        ensures
            buffer_contents(*old(buf)).len() == 0 ==> (res is None && buffer_contents(*final(buf))
                == buffer_contents(*old(buf))),
            buffer_contents(*old(buf)).len() > 0 ==> (res matches Some(m) && buffer_contents(m)
                == buffer_contents(*old(buf)) && buffer_contents(*final(buf)).len() == 0),
    {
        if buffer_len(buf) > 0 {
            let len = buffer_len(buf);
            let m = buffer_split_to(buf, len);
            assert(buffer_contents(m) =~= buffer_contents(*old(buf)));
            Some(m)
        } else {
            None
        }
    }

    /// Appends a message to the outgoing buffer, which must have room for it.
    pub fn encode(&mut self, data: bytes::Bytes, buf: &mut bytes::BytesMut)
        requires
            buffer_contents(*old(buf)).len() + frozen_contents(data).len() <= buffer_room(*old(buf)),
        ensures
            buffer_contents(*final(buf)) == buffer_contents(*old(buf)) + frozen_contents(data),
    {
        buffer_put(buf, frozen_as_slice(&data));
    }
}

} // verus!
