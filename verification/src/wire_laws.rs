use crate::wire::{
    be_u32, be_value, declared_length, frame_status, packed_field, payload_frame, FrameStatus,
    FrameView,
};
use vstd::prelude::*;

verus! {

/// Four bytes written most significant first say the number they were written from.
pub proof fn lemma_be_round_trip(n: int)
    requires
        0 <= n <= u32::MAX,
    ensures
        be_u32(n).len() == 4,
        be_value(be_u32(n)) == n,
{
}

/// The bytes after the length prefix give back the frame they were written from.
pub proof fn lemma_payload_round_trip(frame: FrameView)
    requires
        frame.fits(),
    ensures
        payload_frame(frame.payload()) == Some(frame),
{
    let p = frame.payload();
    let packed = packed_field(frame.type_tag, frame.header.len() as int);
    lemma_be_round_trip(packed);
    assert(p.take(4) =~= be_u32(packed));
    assert(p.subrange(4, 4 + frame.header.len() as int) =~= frame.header);
    assert(p.subrange(4 + frame.header.len() as int, p.len() as int) =~= frame.body);
}

/// WireFrame round trip: a stream that begins with the bytes of a frame holds that
/// frame, with its type tag, its header bytes and its body bytes, and what follows
/// the frame is what is left once it is taken.
pub proof fn lemma_frame_round_trip(frame: FrameView, rest: Seq<u8>, max: int)
    requires
        frame.fits(),
        frame.total_length() <= max,
    ensures
        frame_status(frame.wire() + rest, max) == FrameStatus::Complete(frame),
        4 + declared_length(frame.wire() + rest) == frame.wire().len(),
        (frame.wire() + rest).skip(4 + declared_length(frame.wire() + rest)) == rest,
{
    let buf = frame.wire() + rest;
    lemma_be_round_trip(frame.total_length());
    lemma_payload_round_trip(frame);
    assert(buf.take(4) =~= be_u32(frame.total_length()));
    assert(buf.subrange(4, 4 + frame.total_length()) =~= frame.payload());
    assert(buf.skip(4 + frame.total_length()) =~= rest);
}

/// Incremental decode: no proper prefix of the bytes of a frame is taken for a
/// frame, or for an error. Each one asks for more bytes.
pub proof fn lemma_prefix_is_incomplete(frame: FrameView, k: int, max: int)
    requires
        frame.fits(),
        frame.total_length() <= max,
        0 <= k < frame.wire().len(),
    ensures
        frame_status(frame.wire().take(k), max) == FrameStatus::Incomplete,
{
    let prefix = frame.wire().take(k);
    lemma_be_round_trip(frame.total_length());
    if k >= 4 {
        assert(prefix.take(4) =~= be_u32(frame.total_length()));
    }
}

/// Oversized rejection: four bytes that declare more than the maximum are
/// enough to refuse the frame, however many bytes follow them.
pub proof fn lemma_oversized_is_refused(buf: Seq<u8>, max: int)
    requires
        buf.len() >= 4,
        declared_length(buf) > max,
    ensures
        frame_status(buf, max) == FrameStatus::Oversized,
        frame_status(buf.take(4), max) == FrameStatus::Oversized,
{
    assert(buf.take(4).take(4) =~= buf.take(4));
}

} // verus!
