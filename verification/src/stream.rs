//! Sinks that take bytes and sources that give them.
//!
//! The codecs of this crate write to any [`ByteSink`] and read from any
//! [`ByteSource`]. A vector is a sink without a limit, a byte slice is a
//! source; the buffers of this crate are sinks of limited room.

use vstd::prelude::*;

verus! {

/// Why a sink or a source refused.
#[derive(Clone, Copy, Debug, PartialEq, Eq, Structural)]
pub enum StreamError {
    /// A buffer of fixed capacity has no room for the bytes.
    InsufficientCapacity,
    /// A read or a write would pass the end of a fixed buffer.
    OutOfBounds,
    /// A vector of fixed capacity is full.
    OutOfSpace,
    /// A source ended before it gave the bytes asked for.
    UnexpectedEof,
}

impl StreamError {
    /// The message that describes this error.
    pub fn to_string(&self) -> (r: String)
        ensures
            r@ == match *self {
                StreamError::InsufficientCapacity => "insufficient capacity"@,
                StreamError::OutOfBounds => "Buffer access out of bounds"@,
                StreamError::OutOfSpace => "ArrayVec out of space"@,
                StreamError::UnexpectedEof => "failed to fill whole buffer"@,
            },
    {
        match self {
            StreamError::InsufficientCapacity => "insufficient capacity".to_owned(),
            StreamError::OutOfBounds => "Buffer access out of bounds".to_owned(),
            StreamError::OutOfSpace => "ArrayVec out of space".to_owned(),
            StreamError::UnexpectedEof => "failed to fill whole buffer".to_owned(),
        }
    }
}

/// Whether a sink with `room` can take `n` more bytes. A sink without a
/// limit has no `room` to speak of and takes any number.
pub open spec fn fits(room: Option<nat>, n: nat) -> bool {
    match room {
        Some(left) => n <= left,
        None => true,
    }
}

/// The room that is left once `n` bytes have gone in.
pub open spec fn room_after(room: Option<nat>, n: nat) -> Option<nat> {
    match room {
        Some(left) => Some((left - n) as nat),
        None => None,
    }
}

/// What it is for a sink that held `held` and had `room` to have been
/// offered `bytes`, with the outcome `r`, after which it holds `held_after`
/// and has `room_left`. The sink took all the bytes if it had the room. If it
/// had not it failed, and took none or some off their front.
pub open spec fn took(
    held: Seq<u8>,
    room: Option<nat>,
    held_after: Seq<u8>,
    room_left: Option<nat>,
    bytes: Seq<u8>,
    r: Result<(), StreamError>,
) -> bool {
    &&& r is Ok <==> fits(room, bytes.len())
    &&& r is Ok ==> held_after == held + bytes && room_left == room_after(room, bytes.len())
    &&& r is Err ==> exists|k: int|
        0 <= k < bytes.len() && #[trigger] held.add(bytes.subrange(0, k)) == held_after
}

/// Something that takes bytes, in order.
pub trait ByteSink: Sized {
    /// What holds of every sink of this type.
    spec fn sink_wf(&self) -> bool;

    /// The bytes that the sink holds, in the order in which they came.
    spec fn sink_bytes(&self) -> Seq<u8>;

    /// The number of bytes that the sink can still take, if it has a limit.
    spec fn sink_room(&self) -> Option<nat>;

    /// Offers `buf` to the sink, which takes all of it if it has the room.
    /// A sink that has not may have taken some bytes off the front of `buf`.
    fn write_all(&mut self, buf: &[u8]) -> (r: Result<(), StreamError>)
        requires
            old(self).sink_wf(),
        ensures
            final(self).sink_wf(),
            took(
                old(self).sink_bytes(),
                old(self).sink_room(),
                final(self).sink_bytes(),
                final(self).sink_room(),
                buf@,
                r,
            ),
    ;
}

/// What it is for a sink to have been offered `bytes`, with the outcome `r`,
/// on its way from `before` to `after`.
pub open spec fn wrote<W: ByteSink>(
    before: &W,
    after: &W,
    bytes: Seq<u8>,
    r: Result<(), StreamError>,
) -> bool {
    took(
        before.sink_bytes(),
        before.sink_room(),
        after.sink_bytes(),
        after.sink_room(),
        bytes,
        r,
    )
}

/// Something that gives bytes, in order.
pub trait ByteSource: Sized {
    /// What holds of every source of this type.
    spec fn source_wf(&self) -> bool;

    /// The bytes that the source has yet to give.
    spec fn source_bytes(&self) -> Seq<u8>;

    /// A source holds no more bytes than can be counted.
    proof fn lemma_source_is_bounded(&self)
        requires
            self.source_wf(),
        ensures
            self.source_bytes().len() <= usize::MAX,
    ;

    /// Gives the next `n` bytes, or fails if fewer are left. A source that
    /// fails has given up none or some of what it had left.
    fn read_exact(&mut self, n: usize) -> (r: Result<Vec<u8>, StreamError>)
        requires
            old(self).source_wf(),
        ensures
            final(self).source_wf(),
            r is Ok <==> n <= old(self).source_bytes().len(),
            r is Ok ==> r->Ok_0@ == old(self).source_bytes().take(n as int) && final(self).source_bytes() == old(self).source_bytes().skip(n as int),
            r is Err ==> exists|k: int|
                0 <= k <= old(self).source_bytes().len() && #[trigger] final(self).source_bytes()
                    == old(self).source_bytes().skip(k),
    ;
}

impl ByteSink for Vec<u8> {
    open spec fn sink_wf(&self) -> bool {
        true
    }

    open spec fn sink_bytes(&self) -> Seq<u8> {
        self@
    }

    open spec fn sink_room(&self) -> Option<nat> {
        None
    }

    fn write_all(&mut self, buf: &[u8]) -> (r: Result<(), StreamError>) {
        self.extend_from_slice(buf);
        assert(self@ =~= old(self)@ + buf@);
        Ok(())
    }
}

impl<'a> ByteSource for &'a [u8] {
    open spec fn source_wf(&self) -> bool {
        true
    }

    open spec fn source_bytes(&self) -> Seq<u8> {
        self@
    }

    proof fn lemma_source_is_bounded(&self) {
        assert((*self).len() == self@.len());
    }

    fn read_exact(&mut self, n: usize) -> (r: Result<Vec<u8>, StreamError>) {
        let all: &'a [u8] = *self;
        if n > all.len() {
            assert(self@ == old(self)@.skip(0));
            Err(StreamError::UnexpectedEof)
        } else {
            let head: &[u8] = vstd::slice::slice_subrange(all, 0, n);
            let tail: &'a [u8] = vstd::slice::slice_subrange(all, n, all.len());
            *self = tail;
            Ok(vstd::slice::slice_to_vec(head))
        }
    }
}

} // verus!
