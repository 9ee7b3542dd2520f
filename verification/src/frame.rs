use crate::buffer::bulk_bytes;
use vstd::prelude::*;

verus! {

/// A value of a protocol that is made of numbers, bulks of bytes and arrays of
/// these.
#[derive(Debug)]
pub enum Frame {
    U8(u8),
    Integer(i32),
    Bulk(bytes::Bytes),
    Array(Vec<Frame>),
}

/// Whether two frames say the same: the same numbers, bulks of the same bytes,
/// and arrays of items that say the same, one by one.
pub open spec fn same_frame(a: Frame, b: Frame) -> bool
    decreases a,
{
    match (a, b) {
        (Frame::U8(x), Frame::U8(y)) => x == y,
        (Frame::Integer(x), Frame::Integer(y)) => x == y,
        (Frame::Bulk(x), Frame::Bulk(y)) => bulk_bytes(x) == bulk_bytes(y),
        (Frame::Array(x), Frame::Array(y)) => x@.len() == y@.len() && forall|i: int|
            0 <= i < x@.len() ==> same_frame(#[trigger] x@[i], y@[i]),
        _ => false,
    }
}

impl Clone for Frame {
    fn clone(&self) -> (copy: Frame)
        ensures
            same_frame(*self, copy),
        decreases self,
    {
        match self {
            Frame::U8(value) => Frame::U8(*value),
            Frame::Integer(value) => Frame::Integer(*value),
            Frame::Bulk(bytes) => Frame::Bulk(bytes.clone()),
            Frame::Array(items) => {
                let mut copies: Vec<Frame> = Vec::new();
                let mut i: usize = 0;
                while i < items.len()
                    invariant
                        i <= items.len(),
                        copies@.len() == i,
                        *self == Frame::Array(*items),
                        forall|k: int| 0 <= k < i ==> same_frame(#[trigger] items@[k], copies@[k]),
                    decreases items.len() - i,
                {
                    proof {
                        assert(decreases_to!(*self => self->Array_0));
                        assert(decreases_to!(self->Array_0 => self->Array_0[i as int]));
                    }
                    copies.push(items[i].clone());
                    i = i + 1;
                }
                Frame::Array(copies)
            },
        }
    }
}

impl Frame {
    /// The items of an array.
    pub open spec fn items(self) -> Seq<Frame> {
        match self {
            Frame::Array(items) => items@,
            _ => Seq::empty(),
        }
    }

    /// Whether this is an array, to which items can be appended.
    pub fn is_array(&self) -> (b: bool)
        ensures
            b == (*self is Array),
    {
        match self {
            Frame::Array(_) => true,
            _ => false,
        }
    }

    /// An array without items.
    pub fn array() -> (frame: Frame)
        ensures
            frame is Array,
            frame.items() == Seq::<Frame>::empty(),
    {
        Frame::Array(Vec::new())
    }

    /// Appends a bulk of bytes to an array. The frame is to be an array, which
    /// `is_array` tells.
    pub fn push_bulk(&mut self, bytes: bytes::Bytes)
        requires
            *old(self) is Array,
        ensures
            *final(self) is Array,
            final(self).items() == old(self).items().push(Frame::Bulk(bytes)),
    {
        match self {
            Frame::Array(vec) => vec.push(Frame::Bulk(bytes)),
            _ => {},
        }
    }

    /// Appends an integer to an array.
    pub fn push_int32(&mut self, value: i32)
        requires
            *old(self) is Array,
        ensures
            *final(self) is Array,
            final(self).items() == old(self).items().push(Frame::Integer(value)),
    {
        match self {
            Frame::Array(vec) => vec.push(Frame::Integer(value)),
            _ => {},
        }
    }

    /// Appends a byte to an array.
    pub fn push_u8(&mut self, value: u8)
        requires
            *old(self) is Array,
        ensures
            *final(self) is Array,
            final(self).items() == old(self).items().push(Frame::U8(value)),
    {
        match self {
            Frame::Array(vec) => vec.push(Frame::U8(value)),
            _ => {},
        }
    }
}

} // verus!
