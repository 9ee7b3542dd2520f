use crate::buffer::buffer_bytes;
use crate::error::ProtocolError;
use bytes::BytesMut;
use vstd::prelude::*;
use vstd::slice::{slice_subrange, slice_to_vec};

verus! {

/// The largest header length that the 24-bit field can say.
pub const MAX_HEADER_LENGTH: usize = 0xFF_FFFF;

/// The type tag of a frame whose header is JSON text.
pub const JSON_TYPE_TAG: u8 = 0;

/// The four bytes of `n`, most significant first.
pub open spec fn be_u32(n: int) -> Seq<u8> {
    seq![
        (n / 0x100_0000 % 0x100) as u8,
        (n / 0x1_0000 % 0x100) as u8,
        (n / 0x100 % 0x100) as u8,
        (n % 0x100) as u8,
    ]
}

/// The number that four bytes say, most significant first.
pub open spec fn be_value(b: Seq<u8>) -> int
    recommends
        b.len() == 4,
{
    b[0] * 0x100_0000 + b[1] * 0x1_0000 + b[2] * 0x100 + b[3]
}

/// The field that holds the type tag in its highest byte and the header length in
/// its low 24 bits.
pub open spec fn packed_field(type_tag: u8, header_length: int) -> int {
    type_tag * 0x100_0000 + header_length
}

/// A frame as a value: what is between the length prefix of one frame and the next.
pub struct FrameView {
    pub type_tag: u8,
    pub header: Seq<u8>,
    pub body: Seq<u8>,
}

impl FrameView {
    /// The number of bytes after the length prefix: the packed field, the header
    /// and the body.
    pub open spec fn total_length(self) -> int {
        4 + self.header.len() as int + self.body.len() as int
    }

    /// Both lengths fit their fields.
    pub open spec fn fits(self) -> bool {
        self.header.len() <= MAX_HEADER_LENGTH && self.total_length() <= u32::MAX
    }

    /// Why a frame is refused whose lengths do not fit their fields.
    pub open spec fn length_error(self) -> ProtocolError {
        if self.header.len() > MAX_HEADER_LENGTH {
            ProtocolError::HeaderTooLong
        } else {
            ProtocolError::FrameTooLong
        }
    }

    /// The bytes after the length prefix.
    pub open spec fn payload(self) -> Seq<u8> {
        be_u32(packed_field(self.type_tag, self.header.len() as int)) + self.header + self.body
    }

    /// The bytes of the whole frame on the stream.
    pub open spec fn wire(self) -> Seq<u8> {
        be_u32(self.total_length()) + self.payload()
    }
}

/// The frame that the bytes after a length prefix hold, if their lengths agree:
/// there is room for the packed field, and for a header as long as it says.
pub open spec fn payload_frame(p: Seq<u8>) -> Option<FrameView> {
    if p.len() < 4 {
        None
    } else {
        let packed = be_value(p.take(4));
        let header_length = packed % 0x100_0000;
        if 4 + header_length > p.len() {
            None
        } else {
            Some(
                FrameView {
                    type_tag: (packed / 0x100_0000) as u8,
                    header: p.subrange(4, 4 + header_length),
                    body: p.subrange(4 + header_length, p.len() as int),
                },
            )
        }
    }
}

/// What the front of a stream holds.
pub enum FrameStatus {
    /// Not yet a whole frame: more bytes are needed.
    Incomplete,
    /// A frame that declares more than the maximum.
    Oversized,
    /// A whole frame whose inner lengths contradict each other.
    Malformed,
    /// A whole frame.
    Complete(FrameView),
}

/// The length that the first four bytes declare.
pub open spec fn declared_length(buf: Seq<u8>) -> int
    recommends
        buf.len() >= 4,
{
    be_value(buf.take(4))
}

/// What the front of `buf` holds, where no frame may declare more than `max` bytes.
pub open spec fn frame_status(buf: Seq<u8>, max: int) -> FrameStatus {
    if buf.len() < 4 {
        FrameStatus::Incomplete
    } else if declared_length(buf) > max {
        FrameStatus::Oversized
    } else if buf.len() < 4 + declared_length(buf) {
        FrameStatus::Incomplete
    } else {
        match payload_frame(buf.subrange(4, 4 + declared_length(buf))) {
            Some(frame) => FrameStatus::Complete(frame),
            None => FrameStatus::Malformed,
        }
    }
}

/// The wire-level envelope of one request or response.
#[derive(Debug)]
pub struct WireFrame {
    pub type_tag: u8,
    pub header: Vec<u8>,
    pub body: Vec<u8>,
}

impl View for WireFrame {
    type V = FrameView;

    open spec fn view(&self) -> FrameView {
        FrameView { type_tag: self.type_tag, header: self.header@, body: self.body@ }
    }
}

/// Reads four bytes at `at` as a number, most significant first.
fn read_be_u32(bytes: &[u8], at: usize) -> (n: u32)
    requires
        at + 4 <= bytes@.len(),
    ensures
        n == be_value(bytes@.subrange(at as int, at + 4)),
{
    let b0 = bytes[at] as u32;
    let b1 = bytes[at + 1] as u32;
    let b2 = bytes[at + 2] as u32;
    let b3 = bytes[at + 3] as u32;
    b0 * 0x100_0000 + b1 * 0x1_0000 + b2 * 0x100 + b3
}

/// Appends the four bytes of `n`, most significant first.
fn push_be_u32(out: &mut Vec<u8>, n: u32)
    ensures
        final(out)@ == old(out)@ + be_u32(n as int),
{
    out.push((n / 0x100_0000 % 0x100) as u8);
    out.push((n / 0x1_0000 % 0x100) as u8);
    out.push((n / 0x100 % 0x100) as u8);
    out.push((n % 0x100) as u8);
    assert(out@ =~= old(out)@ + be_u32(n as int));
}

impl WireFrame {
    /// The frame that the bytes after a length prefix hold.
    pub fn parse(content: &[u8]) -> (r: Result<WireFrame, ProtocolError>)
        ensures
            match payload_frame(content@) {
                Some(frame) => r matches Ok(f) && f@ == frame,
                None => r == Err::<WireFrame, ProtocolError>(ProtocolError::Malformed),
            },
    {
        if content.len() < 4 {
            return Err(ProtocolError::Malformed);
        }
        assert(content@.subrange(0, 4) =~= content@.take(4));
        let packed = read_be_u32(content, 0);
        let header_length = (packed % 0x100_0000) as usize;
        if header_length > content.len() - 4 {
            return Err(ProtocolError::Malformed);
        }
        let header = slice_to_vec(slice_subrange(content, 4, 4 + header_length));
        let body = slice_to_vec(slice_subrange(content, 4 + header_length, content.len()));
        Ok(WireFrame { type_tag: (packed / 0x100_0000) as u8, header, body })
    }

    /// The bytes of this frame after the length prefix, where its lengths fit.
    pub fn payload(&self) -> (r: Result<Vec<u8>, ProtocolError>)
        ensures
            match r {
                Ok(bytes) => self@.fits() && bytes@ == self@.payload(),
                Err(e) => !self@.fits() && e == self@.length_error(),
            },
    {
        if self.header.len() > MAX_HEADER_LENGTH {
            return Err(ProtocolError::HeaderTooLong);
        }
        if self.body.len() as u64 > u32::MAX as u64 - 4 - self.header.len() as u64 {
            return Err(ProtocolError::FrameTooLong);
        }
        let mut out: Vec<u8> = Vec::new();
        push_be_u32(&mut out, self.type_tag as u32 * 0x100_0000 + self.header.len() as u32);
        out.extend_from_slice(self.header.as_slice());
        out.extend_from_slice(self.body.as_slice());
        Ok(out)
    }

    /// Appends this frame to `dst`: its length prefix, then its payload. A frame
    /// whose lengths do not fit their fields is refused, and `dst` left as it was.
    pub fn encode(&self, dst: &mut BytesMut) -> (r: Result<(), ProtocolError>)
        ensures
            match r {
                Ok(_) => self@.fits() && buffer_bytes(*final(dst)) == buffer_bytes(*old(dst))
                    + self@.wire(),
                Err(e) => !self@.fits() && buffer_bytes(*final(dst)) == buffer_bytes(*old(dst))
                    && e == self@.length_error(),
            },
    {
        match self.payload() {
            Ok(payload) => {
                let mut prefix: Vec<u8> = Vec::new();
                push_be_u32(&mut prefix, payload.len() as u32);
                dst.extend_from_slice(prefix.as_slice());
                dst.extend_from_slice(payload.as_slice());
                assert(buffer_bytes(*dst) =~= buffer_bytes(*old(dst)) + self@.wire());
                Ok(())
            },
            Err(e) => Err(e),
        }
    }

    /// Takes one frame from the front of `src`, if a whole one is there. No frame
    /// may declare more than `max_size` bytes. Only a whole frame is taken out of
    /// `src`: otherwise it is left as it was.
    pub fn decode(src: &mut BytesMut, max_size: u64) -> (r: Result<
        Option<WireFrame>,
        ProtocolError,
    >)
        ensures
            match frame_status(buffer_bytes(*old(src)), max_size as int) {
                FrameStatus::Incomplete => r matches Ok(None) && buffer_bytes(*final(src))
                    == buffer_bytes(*old(src)),
                FrameStatus::Oversized => r == Err::<Option<WireFrame>, ProtocolError>(
                    ProtocolError::Oversized,
                ) && buffer_bytes(*final(src)) == buffer_bytes(*old(src)),
                FrameStatus::Malformed => r == Err::<Option<WireFrame>, ProtocolError>(
                    ProtocolError::Malformed,
                ) && buffer_bytes(*final(src)) == buffer_bytes(*old(src)),
                FrameStatus::Complete(frame) => r matches Ok(Some(f)) && f@ == frame
                    && buffer_bytes(*final(src)) == buffer_bytes(*old(src)).skip(
                    4 + declared_length(buffer_bytes(*old(src))),
                ),
            },
    {
        let ghost buf = buffer_bytes(*src);
        let available = src.len();
        if available < 4 {
            return Ok(None);
        }
        let bytes: &[u8] = &src;
        assert(bytes@.subrange(0, 4) =~= buf.take(4));
        let declared = read_be_u32(bytes, 0);
        if declared as u64 > max_size {
            return Err(ProtocolError::Oversized);
        }
        if (available as u64) < 4 + declared as u64 {
            return Ok(None);
        }
        let end: usize = 4 + declared as usize;
        match WireFrame::parse(slice_subrange(bytes, 4, end)) {
            Ok(frame) => {
                let _ = src.split_to(end);
                Ok(Some(frame))
            },
            Err(e) => Err(e),
        }
    }
}

} // verus!
