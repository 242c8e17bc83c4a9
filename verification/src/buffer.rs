//! A byte buffer of fixed size with appends at its end and reads at a cursor.
//!
//! The buffer keeps `L` bytes of storage, of which the first `len` are in
//! use. Numbers are written and read with the highest byte first.

use crate::slices::{
    slice_as_array, slice_as_array_mut, be16, be16_bytes, be32, be32_bytes, be64, be64_bytes, filled, overwritten, u16_from_be,
    u16_to_be, u32_from_be, u32_to_be, u64_from_be, u64_to_be,
};
use crate::stream::{ByteSink, ByteSource, StreamError};
use vstd::prelude::*;

verus! {

/// The error of an access that would pass the end of a buffer.
#[derive(Clone, Copy, Debug)]
pub struct OutOfBoundsError;

impl OutOfBoundsError {
    /// The message that describes this error.
    pub fn to_string(&self) -> (r: String)
        ensures
            r@ == "Buffer access out of bounds"@,
    {
        "Buffer access out of bounds".to_owned()
    }
}

/// A buffer of `L` bytes of storage. Its view is the bytes in use.
#[derive(Clone, Copy, PartialEq, Eq)]
pub struct Buffer<const L: usize> {
    len: usize,
    data: [u8; L],
}

impl<const L: usize> View for Buffer<L> {
    type V = Seq<u8>;

    closed spec fn view(&self) -> Seq<u8> {
        self.data@.take(self.len as int)
    }
}

impl<const L: usize> Buffer<L> {
    /// The number of bytes in use.
    pub closed spec fn spec_len(&self) -> usize {
        self.len
    }

    /// All `L` bytes of storage: those in use, then those that are not.
    pub closed spec fn storage(&self) -> Seq<u8> {
        self.data@
    }

    /// What holds of every buffer: the bytes in use are within the storage.
    pub open spec fn wf(&self) -> bool {
        self.spec_len() <= L
    }

    /// The bytes in use are the first `len` bytes of the storage.
    pub proof fn lemma_view(&self)
        requires
            self.wf(),
        ensures
            self.storage().len() == L,
            self@ == self.storage().take(self.spec_len() as int),
            self@.len() == self.spec_len(),
    {
    }

    /// Whether `self` is `prev` after `bytes` went in at its end.
    pub open spec fn appended(&self, prev: &Self, bytes: Seq<u8>) -> bool {
        &&& self.spec_len() == prev.spec_len() + bytes.len()
        &&& self.storage() == overwritten(prev.storage(), prev.spec_len() as int, bytes)
        &&& self@ == prev@ + bytes
    }

    /// Whether `self` is `prev`, storage and all.
    pub open spec fn unchanged(&self, prev: &Self) -> bool {
        &&& self.spec_len() == prev.spec_len()
        &&& self.storage() == prev.storage()
        &&& self@ == prev@
    }

    /// Makes an empty buffer whose storage is all zero.
    pub fn new() -> (r: Self)
        ensures
            r.wf(),
            r.spec_len() == 0,
            r@ == Seq::<u8>::empty(),
            r.storage() == filled(L as nat, 0),
    {
        let r = Buffer { len: 0, data: [0u8; L] };
        assert(r.data@ =~= filled(L as nat, 0));
        r
    }

    /// Makes an empty buffer on the heap.
    pub fn new_boxed() -> (r: Box<Self>)
        ensures
            r.wf(),
            r.spec_len() == 0,
            r@ == Seq::<u8>::empty(),
            r.storage() == filled(L as nat, 0),
    {
        Box::new(Self::new())
    }

    pub fn capacity(&self) -> (r: usize)
        ensures
            r == L,
    {
        L
    }

    fn put(&mut self, at: usize, bytes: &[u8])
        requires
            at + bytes@.len() <= L,
        ensures
            final(self).len == old(self).len,
            final(self).data@ == overwritten(old(self).data@, at as int, bytes@),
    {
        let mut i: usize = 0;
        while i < bytes.len()
            invariant
                i <= bytes@.len(),
                at + bytes@.len() <= L,
                self.len == old(self).len,
                self.data@ == overwritten(old(self).data@, at as int, bytes@.take(i as int)),
            decreases bytes@.len() - i,
        {
            self.data[at + i] = bytes[i];
            i = i + 1;
            assert(self.data@ =~= overwritten(old(self).data@, at as int, bytes@.take(i as int)));
        }
        assert(bytes@.take(bytes@.len() as int) =~= bytes@);
    }

    fn fill(&mut self, at: usize, count: usize, val: u8)
        requires
            at + count <= L,
        ensures
            final(self).len == old(self).len,
            final(self).data@ == overwritten(old(self).data@, at as int, filled(count as nat, val)),
    {
        let mut i: usize = 0;
        while i < count
            invariant
                i <= count,
                at + count <= L,
                self.len == old(self).len,
                self.data@ == overwritten(old(self).data@, at as int, filled(i as nat, val)),
            decreases count - i,
        {
            self.data[at + i] = val;
            i = i + 1;
            assert(self.data@ =~= overwritten(old(self).data@, at as int, filled(i as nat, val)));
        }
    }

    fn grow(&mut self, bytes: &[u8])
        requires
            old(self).wf(),
            old(self).len + bytes@.len() <= L,
        ensures
            final(self).wf(),
            final(self).appended(old(self), bytes@),
    {
        let at: usize = self.len;
        self.put(at, bytes);
        self.len = at + bytes.len();
        assert(self@ =~= old(self)@ + bytes@);
    }

    /// Makes a buffer that holds `b`, if `b` is no longer than the storage.
    pub fn from_bytes(b: &[u8]) -> (r: Result<Self, OutOfBoundsError>)
        ensures
            r is Ok <==> b@.len() <= L,
            r is Ok ==> r->Ok_0.wf() && r->Ok_0@ == b@ && r->Ok_0.storage() == overwritten(
                filled(L as nat, 0),
                0,
                b@,
            ),
    {
        if b.len() <= L {
            let mut tmp = Self::new();
            tmp.grow(b);
            assert(tmp@ =~= b@);
            Ok(tmp)
        } else {
            Err(OutOfBoundsError)
        }
    }

    /// The bytes in use.
    pub fn as_bytes(&self) -> (r: &[u8])
        requires
            self.wf(),
        ensures
            r@ == self@,
    {
        vstd::slice::slice_subrange(self.data.as_slice(), 0, self.len)
    }

    /// The bytes in use from index `start` on.
    pub fn as_bytes_after(&self, start: usize) -> (r: Result<&[u8], OutOfBoundsError>)
        requires
            self.wf(),
        ensures
            r is Ok <==> start <= self.spec_len(),
            r is Ok ==> r->Ok_0@ == self@.skip(start as int),
    {
        if start <= self.len {
            let s: &[u8] = vstd::slice::slice_subrange(self.data.as_slice(), start, self.len);
            assert(s@ =~= self@.skip(start as int));
            Ok(s)
        } else {
            Err(OutOfBoundsError)
        }
    }

    /// The bytes in use at `start..end`. Where `end` is within the bytes in
    /// use, `start` must not be past `end`.
    pub fn as_byte_range(&self, start: usize, end: usize) -> (r: Result<&[u8], OutOfBoundsError>)
        requires
            self.wf(),
            end <= self.spec_len() ==> start <= end,
        ensures
            r is Ok <==> end <= self.spec_len(),
            r is Ok ==> r->Ok_0@ == self@.subrange(start as int, end as int),
    {
        if end <= self.len {
            let s: &[u8] = vstd::slice::slice_subrange(self.data.as_slice(), start, end);
            assert(s@ =~= self@.subrange(start as int, end as int));
            Ok(s)
        } else {
            Err(OutOfBoundsError)
        }
    }

    /// Sets the bytes in use to zero and the length to zero.
    pub fn clear(&mut self)
        requires
            old(self).wf(),
        ensures
            final(self).wf(),
            final(self)@ == Seq::<u8>::empty(),
            final(self).storage() == overwritten(
                old(self).storage(),
                0,
                filled(old(self).spec_len() as nat, 0),
            ),
    {
        let n: usize = self.len;
        self.fill(0, n, 0);
        self.len = 0;
    }

    /// Makes `b` the bytes in use. `b` is no longer than the storage.
    pub fn set_to(&mut self, b: &[u8])
        requires
            b@.len() <= L,
        ensures
            final(self).wf(),
            final(self)@ == b@,
            final(self).storage() == overwritten(old(self).storage(), 0, b@),
    {
        self.len = b.len();
        self.put(0, b);
        assert(self@ =~= b@);
    }

    pub fn len(&self) -> (r: usize)
        ensures
            r == self.spec_len(),
    {
        self.len
    }

    pub fn is_empty(&self) -> (r: bool)
        ensures
            r == (self.spec_len() == 0),
    {
        self.len == 0
    }

    /// Sets the length to `s`, which is within the storage. Bytes that come
    /// into use are set to zero; bytes that go out of use stay as they are.
    pub fn set_size(&mut self, s: usize)
        requires
            old(self).wf(),
            s <= L,
        ensures
            final(self).wf(),
            final(self).spec_len() == s,
            s <= old(self).spec_len() ==> final(self).storage() == old(self).storage() && final(self)@ == old(self)@.take(s as int),
            s > old(self).spec_len() ==> final(self).storage() == overwritten(
                old(self).storage(),
                old(self).spec_len() as int,
                filled((s - old(self).spec_len()) as nat, 0),
            ) && final(self)@ == old(self)@ + filled((s - old(self).spec_len()) as nat, 0),
    {
        let prev_len: usize = self.len;
        self.len = s;
        if s > prev_len {
            self.fill(prev_len, s - prev_len, 0);
            assert(self@ =~= old(self)@ + filled((s - prev_len) as nat, 0));
        } else {
            assert(self@ =~= old(self)@.take(s as int));
        }
    }

    /// Appends `count` bytes that all are `b`, if they fit.
    pub fn append_padding(&mut self, b: u8, count: usize) -> (r: Result<(), OutOfBoundsError>)
        requires
            old(self).wf(),
        ensures
            final(self).wf(),
            r is Ok <==> old(self).spec_len() + count <= L,
            r is Ok ==> final(self).appended(old(self), filled(count as nat, b)),
            r is Err ==> final(self).unchanged(old(self)),
    {
        let ptr: usize = self.len;
        if count <= L - ptr {
            self.fill(ptr, count, b);
            self.len = ptr + count;
            assert(self@ =~= old(self)@ + filled(count as nat, b));
            Ok(())
        } else {
            Err(OutOfBoundsError)
        }
    }

    /// Appends `buf`, if it fits.
    pub fn append_bytes(&mut self, buf: &[u8]) -> (r: Result<(), OutOfBoundsError>)
        requires
            old(self).wf(),
        ensures
            final(self).wf(),
            r is Ok <==> old(self).spec_len() + buf@.len() <= L,
            r is Ok ==> final(self).appended(old(self), buf@),
            r is Err ==> final(self).unchanged(old(self)),
    {
        if buf.len() <= L - self.len {
            self.grow(buf);
            Ok(())
        } else {
            Err(OutOfBoundsError)
        }
    }

    /// Appends the `S` bytes of `buf`, if they fit.
    pub fn append_bytes_fixed<const S: usize>(&mut self, buf: &[u8; S]) -> (r: Result<
        (),
        OutOfBoundsError,
    >)
        requires
            old(self).wf(),
        ensures
            final(self).wf(),
            r is Ok <==> old(self).spec_len() + S <= L,
            r is Ok ==> final(self).appended(old(self), buf@),
            r is Err ==> final(self).unchanged(old(self)),
    {
        self.append_bytes(buf.as_slice())
    }

    /// Appends one byte, if it fits.
    pub fn append_u8(&mut self, i: u8) -> (r: Result<(), OutOfBoundsError>)
        requires
            old(self).wf(),
        ensures
            final(self).wf(),
            r is Ok <==> old(self).spec_len() < L,
            r is Ok ==> final(self).appended(old(self), seq![i]),
            r is Err ==> final(self).unchanged(old(self)),
    {
        let one: [u8; 1] = [i];
        assert(one@ =~= seq![i]);
        self.append_bytes(one.as_slice())
    }

    /// Appends the two bytes of `i`, the high byte first, if they fit.
    pub fn append_u16(&mut self, i: u16) -> (r: Result<(), OutOfBoundsError>)
        requires
            old(self).wf(),
        ensures
            final(self).wf(),
            r is Ok <==> old(self).spec_len() + 2 <= L,
            r is Ok ==> final(self).appended(old(self), be16_bytes(i)),
            r is Err ==> final(self).unchanged(old(self)),
    {
        let b: [u8; 2] = u16_to_be(i);
        self.append_bytes(b.as_slice())
    }

    /// Appends the four bytes of `i`, the highest byte first, if they fit.
    pub fn append_u32(&mut self, i: u32) -> (r: Result<(), OutOfBoundsError>)
        requires
            old(self).wf(),
        ensures
            final(self).wf(),
            r is Ok <==> old(self).spec_len() + 4 <= L,
            r is Ok ==> final(self).appended(old(self), be32_bytes(i)),
            r is Err ==> final(self).unchanged(old(self)),
    {
        let b: [u8; 4] = u32_to_be(i);
        self.append_bytes(b.as_slice())
    }

    /// Appends the eight bytes of `i`, the highest byte first, if they fit.
    pub fn append_u64(&mut self, i: u64) -> (r: Result<(), OutOfBoundsError>)
        requires
            old(self).wf(),
        ensures
            final(self).wf(),
            r is Ok <==> old(self).spec_len() + 8 <= L,
            r is Ok ==> final(self).appended(old(self), be64_bytes(i)),
            r is Err ==> final(self).unchanged(old(self)),
    {
        let b: [u8; 8] = u64_to_be(i);
        self.append_bytes(b.as_slice())
    }

    /// The `count` bytes in use that start at index `ptr`, if there are as
    /// many.
    pub fn bytes_at(&self, ptr: usize, count: usize) -> (r: Result<&[u8], OutOfBoundsError>)
        requires
            self.wf(),
        ensures
            r is Ok <==> ptr + count <= self.spec_len(),
            r is Ok ==> r->Ok_0@ == self@.subrange(ptr as int, ptr + count),
    {
        if ptr <= self.len && count <= self.len - ptr {
            let s: &[u8] = vstd::slice::slice_subrange(self.data.as_slice(), ptr, ptr + count);
            assert(s@ =~= self@.subrange(ptr as int, ptr + count));
            Ok(s)
        } else {
            Err(OutOfBoundsError)
        }
    }

    /// The `S` bytes in use that start at index `ptr`, if there are as many.
    pub fn bytes_fixed_at<const S: usize>(&self, ptr: usize) -> (r: Result<
        &[u8; S],
        OutOfBoundsError,
    >)
        requires
            self.wf(),
        ensures
            r is Ok <==> ptr + S <= self.spec_len(),
            r is Ok ==> r->Ok_0@ == self@.subrange(ptr as int, ptr + S),
    {
        match self.bytes_at(ptr, S) {
            Ok(b) => match slice_as_array::<u8, S>(b) {
                Some(a) => Ok(a),
                None => Err(OutOfBoundsError),
            },
            Err(e) => Err(e),
        }
    }

    /// The `S` bytes in use at the cursor, if there are as many; the cursor
    /// then moves past them. A read that fails leaves the cursor where it is.
    pub fn read_bytes_fixed<const S: usize>(&self, cursor: &mut usize) -> (r: Result<
        &[u8; S],
        OutOfBoundsError,
    >)
        requires
            self.wf(),
        ensures
            r is Ok <==> *old(cursor) + S <= self.spec_len(),
            r is Ok ==> r->Ok_0@ == self@.subrange(*old(cursor) as int, *old(cursor) + S)
                && *final(cursor) == *old(cursor) + S,
            r is Err ==> *final(cursor) == *old(cursor),
    {
        let ptr: usize = *cursor;
        match self.bytes_fixed_at::<S>(ptr) {
            Ok(a) => {
                *cursor = ptr + S;
                Ok(a)
            },
            Err(e) => Err(e),
        }
    }

    /// The byte in use at index `ptr`.
    pub fn u8_at(&self, ptr: usize) -> (r: Result<u8, OutOfBoundsError>)
        requires
            self.wf(),
        ensures
            r is Ok <==> ptr < self.spec_len(),
            r is Ok ==> r->Ok_0 == self@[ptr as int],
    {
        if ptr < self.len {
            Ok(self.data[ptr])
        } else {
            Err(OutOfBoundsError)
        }
    }

    /// The number that the two bytes in use at index `ptr` spell.
    pub fn u16_at(&self, ptr: usize) -> (r: Result<u16, OutOfBoundsError>)
        requires
            self.wf(),
        ensures
            r is Ok <==> ptr + 2 <= self.spec_len(),
            r is Ok ==> r->Ok_0 == be16(self@.subrange(ptr as int, ptr + 2)),
    {
        match self.bytes_at(ptr, 2) {
            Ok(b) => Ok(u16_from_be(b)),
            Err(e) => Err(e),
        }
    }

    /// The number that the four bytes in use at index `ptr` spell.
    pub fn u32_at(&self, ptr: usize) -> (r: Result<u32, OutOfBoundsError>)
        requires
            self.wf(),
        ensures
            r is Ok <==> ptr + 4 <= self.spec_len(),
            r is Ok ==> r->Ok_0 == be32(self@.subrange(ptr as int, ptr + 4)),
    {
        match self.bytes_at(ptr, 4) {
            Ok(b) => Ok(u32_from_be(b)),
            Err(e) => Err(e),
        }
    }

    /// The number that the eight bytes in use at index `ptr` spell.
    pub fn u64_at(&self, ptr: usize) -> (r: Result<u64, OutOfBoundsError>)
        requires
            self.wf(),
        ensures
            r is Ok <==> ptr + 8 <= self.spec_len(),
            r is Ok ==> r->Ok_0 == be64(self@.subrange(ptr as int, ptr + 8)),
    {
        match self.bytes_at(ptr, 8) {
            Ok(b) => Ok(u64_from_be(b)),
            Err(e) => Err(e),
        }
    }

    /// The `l` bytes in use at the cursor, if there are as many; the cursor
    /// then moves past them. A read that fails leaves the cursor where it is.
    pub fn read_bytes(&self, l: usize, cursor: &mut usize) -> (r: Result<&[u8], OutOfBoundsError>)
        requires
            self.wf(),
        ensures
            r is Ok <==> *old(cursor) + l <= self.spec_len(),
            r is Ok ==> r->Ok_0@ == self@.subrange(*old(cursor) as int, *old(cursor) + l)
                && *final(cursor) == *old(cursor) + l,
            r is Err ==> *final(cursor) == *old(cursor),
    {
        let ptr: usize = *cursor;
        match self.bytes_at(ptr, l) {
            Ok(b) => {
                *cursor = ptr + l;
                Ok(b)
            },
            Err(e) => Err(e),
        }
    }

    /// The byte in use at the cursor, which then moves past it.
    pub fn read_u8(&self, cursor: &mut usize) -> (r: Result<u8, OutOfBoundsError>)
        requires
            self.wf(),
        ensures
            r is Ok <==> *old(cursor) < self.spec_len(),
            r is Ok ==> r->Ok_0 == self@[*old(cursor) as int] && *final(cursor) == *old(cursor)
                + 1,
            r is Err ==> *final(cursor) == *old(cursor),
    {
        let ptr: usize = *cursor;
        match self.u8_at(ptr) {
            Ok(v) => {
                *cursor = ptr + 1;
                Ok(v)
            },
            Err(e) => Err(e),
        }
    }

    /// The number that the two bytes in use at the cursor spell. The cursor
    /// then moves past them.
    pub fn read_u16(&self, cursor: &mut usize) -> (r: Result<u16, OutOfBoundsError>)
        requires
            self.wf(),
        ensures
            r is Ok <==> *old(cursor) + 2 <= self.spec_len(),
            r is Ok ==> r->Ok_0 == be16(self@.subrange(*old(cursor) as int, *old(cursor) + 2))
                && *final(cursor) == *old(cursor) + 2,
            r is Err ==> *final(cursor) == *old(cursor),
    {
        let ptr: usize = *cursor;
        match self.u16_at(ptr) {
            Ok(v) => {
                *cursor = ptr + 2;
                Ok(v)
            },
            Err(e) => Err(e),
        }
    }

    /// The number that the four bytes in use at the cursor spell. The cursor
    /// then moves past them.
    pub fn read_u32(&self, cursor: &mut usize) -> (r: Result<u32, OutOfBoundsError>)
        requires
            self.wf(),
        ensures
            r is Ok <==> *old(cursor) + 4 <= self.spec_len(),
            r is Ok ==> r->Ok_0 == be32(self@.subrange(*old(cursor) as int, *old(cursor) + 4))
                && *final(cursor) == *old(cursor) + 4,
            r is Err ==> *final(cursor) == *old(cursor),
    {
        let ptr: usize = *cursor;
        match self.u32_at(ptr) {
            Ok(v) => {
                *cursor = ptr + 4;
                Ok(v)
            },
            Err(e) => Err(e),
        }
    }

    /// The number that the eight bytes in use at the cursor spell. The cursor
    /// then moves past them.
    pub fn read_u64(&self, cursor: &mut usize) -> (r: Result<u64, OutOfBoundsError>)
        requires
            self.wf(),
        ensures
            r is Ok <==> *old(cursor) + 8 <= self.spec_len(),
            r is Ok ==> r->Ok_0 == be64(self@.subrange(*old(cursor) as int, *old(cursor) + 8))
                && *final(cursor) == *old(cursor) + 8,
            r is Err ==> *final(cursor) == *old(cursor),
    {
        let ptr: usize = *cursor;
        match self.u64_at(ptr) {
            Ok(v) => {
                *cursor = ptr + 8;
                Ok(v)
            },
            Err(e) => Err(e),
        }
    }

    /// Appends `buf` if it fits, and returns its length.
    pub fn write(&mut self, buf: &[u8]) -> (r: Result<usize, StreamError>)
        requires
            old(self).wf(),
        ensures
            final(self).wf(),
            r is Ok <==> old(self).spec_len() + buf@.len() <= L,
            r is Ok ==> r->Ok_0 == buf@.len() && final(self).appended(old(self), buf@),
            r is Err ==> r->Err_0 == StreamError::OutOfBounds && final(self).unchanged(old(self)),
    {
        match self.append_bytes(buf) {
            Ok(_) => Ok(buf.len()),
            Err(_) => Err(StreamError::OutOfBounds),
        }
    }
}

impl<const L: usize> ByteSink for Buffer<L> {
    open spec fn sink_wf(&self) -> bool {
        self.wf()
    }

    open spec fn sink_bytes(&self) -> Seq<u8> {
        self@
    }

    open spec fn sink_room(&self) -> Option<nat> {
        Some((L - self.spec_len()) as nat)
    }

    /// Appends `buf` or nothing.
    fn write_all(&mut self, buf: &[u8]) -> (r: Result<(), StreamError>)
        ensures
            r is Err ==> r->Err_0 == StreamError::OutOfBounds && final(self)@ == old(self)@
                && final(self).unchanged(old(self)),
    {
        match self.write(buf) {
            Ok(_) => Ok(()),
            Err(e) => {
                assert(old(self)@.add(buf@.subrange(0, 0)) =~= self@);
                Err(e)
            },
        }
    }
}

/// Makes and resets buffers for a pool of them.
pub struct PooledBufferFactory<const L: usize>;

impl<const L: usize> PooledBufferFactory<L> {
    pub fn new() -> Self {
        PooledBufferFactory
    }

    /// Makes an empty buffer.
    pub fn create(&self) -> (r: Buffer<L>)
        ensures
            r.wf(),
            r.spec_len() == 0,
            r@ == Seq::<u8>::empty(),
            r.storage() == filled(L as nat, 0),
    {
        Buffer::new()
    }

    /// Clears a buffer that comes back.
    pub fn reset(&self, obj: &mut Buffer<L>)
        requires
            old(obj).wf(),
        ensures
            final(obj).wf(),
            final(obj)@ == Seq::<u8>::empty(),
            final(obj).storage() == overwritten(
                old(obj).storage(),
                0,
                filled(old(obj).spec_len() as nat, 0),
            ),
    {
        obj.clear();
    }
}

impl<const L: usize> Buffer<L> {
    /// The buffer whose storage is `a`, all of it in use.
    pub closed spec fn full(a: [u8; L]) -> Self {
        Buffer { len: L, data: a }
    }

    /// A buffer made of a whole array holds the array's bytes.
    pub proof fn lemma_full(a: [u8; L])
        ensures
            Self::full(a).wf(),
            Self::full(a).spec_len() == L,
            Self::full(a)@ == a@,
            Self::full(a).storage() == a@,
    {
        assert(a@.take(L as int) =~= a@);
    }

    /// The bytes in use, open to change. The length stays as it is.
    pub fn as_bytes_mut(&mut self) -> (r: &mut [u8])
        requires
            old(self).wf(),
        ensures
            r@ == old(self)@,
            final(self).wf(),
            final(self).spec_len() == old(self).spec_len(),
            final(self).storage() == final(r)@ + old(self).storage().skip(
                old(self).spec_len() as int,
            ),
            final(r)@.len() == r@.len(),
            final(self)@ == final(r)@,
    {
        let n: usize = self.len;
        let all: &mut [u8] = &mut self.data;
        let (head, tail) = all.split_at_mut(n);
        assert(final(head)@.len() == n ==> (final(head)@ + tail@).take(n as int) =~= final(head)@);
        head
    }

    /// The bytes in use from index `start` on, open to change. The length
    /// stays as it is.
    pub fn as_bytes_after_mut(&mut self, start: usize) -> (r: Result<
        &mut [u8],
        OutOfBoundsError,
    >)
        requires
            old(self).wf(),
        ensures
            final(self).wf(),
            final(self).spec_len() == old(self).spec_len(),
            r is Ok <==> start <= old(self).spec_len(),
            match r {
                Ok(s) => s@ == old(self)@.skip(start as int) && final(self).storage() == old(self).storage().take(start as int) + final(s)@ + old(self).storage().skip(
                    old(self).spec_len() as int,
                ),
                Err(_) => final(self).unchanged(old(self)),
            },
    {
        let n: usize = self.len;
        if start <= n {
            let all: &mut [u8] = &mut self.data;
            let (head, rest) = all.split_at_mut(start);
            let (mid, tail) = rest.split_at_mut(n - start);
            assert(mid@ =~= old(self)@.skip(start as int));
            assert(head@ =~= old(self).storage().take(start as int));
            assert(tail@ =~= old(self).storage().skip(n as int));
            Ok(mid)
        } else {
            Err(OutOfBoundsError)
        }
    }

    /// Takes `s` more bytes into use, if the storage has as many left, and
    /// returns them, open to change. They hold what the storage held.
    pub fn append_bytes_get_mut(&mut self, s: usize) -> (r: Result<&mut [u8], OutOfBoundsError>)
        requires
            old(self).wf(),
        ensures
            final(self).wf(),
            r is Ok <==> old(self).spec_len() + s <= L,
            match r {
                Ok(m) => {
                    &&& final(self).spec_len() == old(self).spec_len() + s
                    &&& m@ == old(self).storage().subrange(
                        old(self).spec_len() as int,
                        old(self).spec_len() + s,
                    )
                    &&& final(self).storage() == old(self).storage().take(
                        old(self).spec_len() as int,
                    ) + final(m)@ + old(self).storage().skip(old(self).spec_len() + s)
                },
                Err(_) => final(self).unchanged(old(self)),
            },
    {
        let ptr: usize = self.len;
        if s <= L - ptr {
            self.len = ptr + s;
            let all: &mut [u8] = &mut self.data;
            let (head, rest) = all.split_at_mut(ptr);
            let (mid, tail) = rest.split_at_mut(s);
            assert(mid@ =~= old(self).storage().subrange(ptr as int, ptr + s));
            assert(head@ =~= old(self).storage().take(ptr as int));
            assert(tail@ =~= old(self).storage().skip(ptr + s));
            Ok(mid)
        } else {
            Err(OutOfBoundsError)
        }
    }
}

impl<const L: usize> Buffer<L> {
    /// Takes `S` more bytes into use, if the storage has as many left, and
    /// returns them, open to change. They hold what the storage held.
    pub fn append_bytes_fixed_get_mut<const S: usize>(&mut self) -> (r: Result<
        &mut [u8; S],
        OutOfBoundsError,
    >)
        requires
            old(self).wf(),
        ensures
            final(self).wf(),
            r is Ok <==> old(self).spec_len() + S <= L,
            match r {
                Ok(m) => {
                    &&& final(self).spec_len() == old(self).spec_len() + S
                    &&& m@ == old(self).storage().subrange(
                        old(self).spec_len() as int,
                        old(self).spec_len() + S,
                    )
                    &&& final(self).storage() == old(self).storage().take(
                        old(self).spec_len() as int,
                    ) + final(m)@ + old(self).storage().skip(old(self).spec_len() + S)
                },
                Err(_) => final(self).unchanged(old(self)),
            },
    {
        match self.append_bytes_get_mut(S) {
            Ok(m) => match slice_as_array_mut::<u8, S>(m) {
                Some(a) => Ok(a),
                None => vstd::pervasive::unreached(),
            },
            Err(e) => Err(e),
        }
    }

    /// The `S` bytes in use that start at index `ptr`, open to change, if
    /// there are as many.
    pub fn bytes_fixed_at_mut<const S: usize>(&mut self, ptr: usize) -> (r: Result<
        &mut [u8; S],
        OutOfBoundsError,
    >)
        requires
            old(self).wf(),
        ensures
            final(self).wf(),
            final(self).spec_len() == old(self).spec_len(),
            r is Ok <==> ptr + S <= old(self).spec_len(),
            match r {
                Ok(m) => m@ == old(self)@.subrange(ptr as int, ptr + S) && final(self).storage()
                    == old(self).storage().take(ptr as int) + final(m)@ + old(self).storage().skip(ptr + S),
                Err(_) => final(self).unchanged(old(self)),
            },
    {
        let n: usize = self.len;
        if ptr <= n && S <= n - ptr {
            let all: &mut [u8] = &mut self.data;
            let (head, rest) = all.split_at_mut(ptr);
            let (mid, tail) = rest.split_at_mut(S);
            assert(mid@ =~= old(self)@.subrange(ptr as int, ptr + S));
            assert(head@ =~= old(self).storage().take(ptr as int));
            assert(tail@ =~= old(self).storage().skip(ptr + S));
            match slice_as_array_mut::<u8, S>(mid) {
                Some(a) => Ok(a),
                None => vstd::pervasive::unreached(),
            }
        } else {
            Err(OutOfBoundsError)
        }
    }
}

impl<const L: usize> Default for Buffer<L> {
    fn default() -> (r: Self)
        ensures
            r.wf(),
            r.spec_len() == 0,
            r@ == Seq::<u8>::empty(),
            r.storage() == filled(L as nat, 0),
    {
        Buffer::new()
    }
}

impl<const L: usize> From<[u8; L]> for Buffer<L> {
    fn from(a: [u8; L]) -> (r: Self) {
        Buffer { len: L, data: a }
    }
}

impl<const L: usize> vstd::std_specs::convert::FromSpecImpl<[u8; L]> for Buffer<L> {
    open spec fn obeys_from_spec() -> bool {
        true
    }

    /// The buffer whose storage is `a`, all of it in use.
    open spec fn from_spec(a: [u8; L]) -> Self {
        Buffer::<L>::full(a)
    }
}

/// A cursor into a buffer, as a source of bytes.
pub struct BufferReader<'a, 'b, const L: usize>(&'a Buffer<L>, &'b mut usize);

impl<'a, 'b, const L: usize> BufferReader<'a, 'b, L> {
    /// The buffer that is read.
    pub closed spec fn buffer(&self) -> Buffer<L> {
        *self.0
    }

    /// The index of the next byte to read.
    pub closed spec fn position(&self) -> usize {
        *self.1
    }

    pub fn new(b: &'a Buffer<L>, cursor: &'b mut usize) -> (r: Self)
        ensures
            r.buffer() == *b,
            r.position() == *old(cursor),
    {
        BufferReader(b, cursor)
    }
}

impl<'a, 'b, const L: usize> ByteSource for BufferReader<'a, 'b, L> {
    /// The cursor is within the bytes in use.
    open spec fn source_wf(&self) -> bool {
        self.buffer().wf() && self.position() <= self.buffer().spec_len()
    }

    /// The bytes in use from the cursor on.
    open spec fn source_bytes(&self) -> Seq<u8> {
        self.buffer()@.skip(self.position() as int)
    }

    proof fn lemma_source_is_bounded(&self) {
        self.buffer().lemma_view();
    }

    /// Reads at the cursor as [`Buffer::read_bytes`] does.
    fn read_exact(&mut self, n: usize) -> (r: Result<Vec<u8>, StreamError>) {
        proof {
            self.buffer().lemma_view();
        }
        match self.0.read_bytes(n, self.1) {
            Ok(b) => {
                let v: Vec<u8> = vstd::slice::slice_to_vec(b);
                assert(v@ =~= old(self).source_bytes().take(n as int));
                assert(self.source_bytes() =~= old(self).source_bytes().skip(n as int));
                Ok(v)
            },
            Err(_) => {
                assert(self.source_bytes() =~= old(self).source_bytes().skip(0));
                Err(StreamError::OutOfBounds)
            },
        }
    }
}

} // verus!
