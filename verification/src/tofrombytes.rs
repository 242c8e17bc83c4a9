//! Values that have a form in bytes.

use crate::arrayvec::ArrayVec;
use crate::stream::{wrote, ByteSink, ByteSource, StreamError};
use vstd::prelude::*;

verus! {

/// A type whose values can be written as bytes and read back.
pub trait ToFromBytes: Sized {
    /// The bytes that stand for `self`.
    spec fn wire(&self) -> Seq<u8>;

    /// The value that the front of `s` stands for, and the number of bytes
    /// of `s` that it takes; nothing where `s` ends too early.
    spec fn parse(s: Seq<u8>) -> Option<(Self, nat)>;

    /// What is written can be read back, whatever follows it.
    proof fn lemma_round_trip(&self, rest: Seq<u8>)
        ensures
            Self::parse(self.wire() + rest) == Some((*self, self.wire().len())),
    ;

    /// Reads a value from the front of `r`.
    fn read_bytes<R: ByteSource>(r: &mut R) -> (res: Result<Self, StreamError>)
        requires
            old(r).source_wf(),
        ensures
            final(r).source_wf(),
            res is Ok <==> Self::parse(old(r).source_bytes()) is Some,
            res is Ok ==> {
                &&& res->Ok_0 == Self::parse(old(r).source_bytes())->Some_0.0
                &&& final(r).source_bytes() == old(r).source_bytes().skip(
                    Self::parse(old(r).source_bytes())->Some_0.1 as int,
                )
            },
    ;

    /// Writes the bytes of `self` to `w`.
    fn write_bytes<W: ByteSink>(&self, w: &mut W) -> (res: Result<(), StreamError>)
        requires
            old(w).sink_wf(),
        ensures
            final(w).sink_wf(),
            wrote(old(w), final(w), self.wire(), res),
    ;

    /// Reads a value from the front of `b`.
    fn from_bytes(b: &[u8]) -> (res: Result<Self, StreamError>)
        ensures
            res is Ok <==> Self::parse(b@) is Some,
            res is Ok ==> res->Ok_0 == Self::parse(b@)->Some_0.0,
    {
        let mut s: &[u8] = b;
        Self::read_bytes(&mut s)
    }

    /// The bytes of `self`.
    fn to_bytes(&self) -> (v: Vec<u8>)
        ensures
            v@ == self.wire(),
    {
        let mut v: Vec<u8> = Vec::new();
        let res = self.write_bytes(&mut v);
        assert(v@ =~= self.wire());
        v
    }

    /// The bytes of `self` in a vector of fixed capacity, which must be
    /// large enough for them.
    fn to_bytes_on_stack<const BUF_SIZE: usize>(&self) -> (v: ArrayVec<u8, BUF_SIZE>)
        requires
            self.wire().len() <= BUF_SIZE,
        ensures
            v@ == self.wire(),
            v.wf(),
    {
        let mut v: ArrayVec<u8, BUF_SIZE> = ArrayVec::new();
        let res = self.write_bytes(&mut v);
        assert(v@ =~= self.wire());
        v
    }
}

} // verus!
