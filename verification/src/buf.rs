//! Byte buffers of fixed capacity, made one by one or handed out by a pool.
//!
//! A [`Buf`] owns its bytes and never grows past the capacity it was made
//! with. A [`Pool`] keeps a stock of equally sized buffers, hands them out,
//! and takes them back; it is a plain value with one owner. A [`SharedPool`]
//! is a pool behind a lock, for threads to share.
//!
//! A buffer does not find its way back by itself: whoever holds it hands it
//! to its pool with [`Pool::release`] or [`SharedPool::release`]. A pooled
//! buffer that is dropped instead leaves its slot checked out.

use crate::slices::{lex_order, lex_sign};
use crate::stream::{ByteSink, StreamError};
use core::cmp::Ordering;
use vstd::prelude::*;
use vstd::rwlock::{RwLock, RwLockPredicate};

verus! {

/// What `s` becomes when its length is set to `n`: the first `n` bytes of `s`,
/// or `s` followed by copies of `val`.
pub open spec fn resized(s: Seq<u8>, n: nat, val: u8) -> Seq<u8> {
    if n <= s.len() {
        s.subrange(0, n as int)
    } else {
        s + Seq::new((n - s.len()) as nat, |i: int| val)
    }
}

/// What `s` becomes when the bytes at `start..end` are copied to `dest..`,
/// the two ranges being free to overlap.
pub open spec fn copied_within(s: Seq<u8>, start: int, end: int, dest: int) -> Seq<u8> {
    Seq::new(
        s.len(),
        |i: int|
            if dest <= i < dest + (end - start) {
                s[start + (i - dest)]
            } else {
                s[i]
            },
    )
}

/// A byte buffer of fixed capacity.
///
/// Its view is the bytes in use. A buffer is either standalone or checked out
/// of a [`Pool`]; which of the two is settled when it is made and never
/// changes.
pub struct Buf {
    bytes: Vec<u8>,
    cap: usize,
    pooled: bool,
}

impl View for Buf {
    type V = Seq<u8>;

    closed spec fn view(&self) -> Seq<u8> {
        self.bytes@
    }
}

impl Buf {
    /// Largest capacity a buffer may have.
    pub const MAX_CAPACITY: usize = 0x7fffffff;

    /// The capacities a buffer may be made with.
    pub open spec fn valid_capacity(c: usize) -> bool {
        0 < c <= 0x7fffffff && c % 8 == 0
    }

    /// The capacity this buffer was made with.
    pub closed spec fn spec_capacity(&self) -> usize {
        self.cap
    }

    /// Whether this buffer was checked out of a pool.
    pub closed spec fn spec_is_pooled(&self) -> bool {
        self.pooled
    }

    /// What holds of every buffer: its capacity is one that a buffer can be
    /// made with, and the bytes in use never exceed it.
    pub open spec fn wf(&self) -> bool {
        &&& Self::valid_capacity(self.spec_capacity())
        &&& self@.len() <= self.spec_capacity()
    }

    /// Whether `self` is the buffer `prev` with, at most, other bytes in use:
    /// of the same capacity and the same origin, and within its capacity.
    pub open spec fn same_buffer(&self, prev: &Buf) -> bool {
        &&& self.spec_capacity() == prev.spec_capacity()
        &&& self.spec_is_pooled() == prev.spec_is_pooled()
        &&& self.wf()
    }

    /// Whether `self` is what an append of `bytes` makes of the buffer
    /// `prev`, with `ok` telling whether the bytes went in. They go in
    /// exactly if they fit, and then follow what the buffer held. A buffer
    /// that refuses them holds what it held.
    pub open spec fn is_append_of(&self, prev: &Buf, bytes: Seq<u8>, ok: bool) -> bool {
        &&& ok == (prev@.len() + bytes.len() <= prev.spec_capacity())
        &&& ok ==> self@ == prev@ + bytes
        &&& !ok ==> self@ == prev@
        &&& self.same_buffer(prev)
    }

    /// Makes a standalone, empty buffer of the given capacity.
    pub fn new(buf_capacity: usize) -> (r: Buf)
        requires
            Self::valid_capacity(buf_capacity),
        ensures
            r@ == Seq::<u8>::empty(),
            r.spec_capacity() == buf_capacity,
            !r.spec_is_pooled(),
            r.wf(),
    {
        Buf { bytes: Vec::with_capacity(buf_capacity), cap: buf_capacity, pooled: false }
    }

    /// The number of bytes in use.
    #[verifier::when_used_as_spec(spec_len)]
    pub fn len(&self) -> (r: usize)
        ensures
            r == self@.len(),
            self.wf() ==> r <= self.spec_capacity(),
    {
        self.bytes.len()
    }

    /// The number of bytes in use.
    pub open spec fn spec_len(&self) -> usize {
        self@.len() as usize
    }

    pub fn is_empty(&self) -> (r: bool)
        ensures
            r == (self@.len() == 0),
    {
        self.bytes.len() == 0
    }

    /// The capacity: the most bytes this buffer can hold.
    #[verifier::when_used_as_spec(spec_capacity)]
    pub fn capacity(&self) -> (r: usize)
        ensures
            r == self.spec_capacity(),
            self.wf() ==> Self::valid_capacity(r) && self@.len() <= r,
    {
        self.cap
    }

    /// Whether this buffer was checked out of a pool.
    #[verifier::when_used_as_spec(spec_is_pooled)]
    pub fn is_pooled(&self) -> (r: bool)
        ensures
            r == self.spec_is_pooled(),
    {
        self.pooled
    }

    /// Sets the length to zero.
    pub fn clear(&mut self)
        requires
            old(self).wf(),
        ensures
            final(self)@ == Seq::<u8>::empty(),
            final(self).same_buffer(old(self)),
    {
        self.bytes.clear();
    }

    /// Sets the length to `new_size`. Bytes that come into use hold `val`.
    pub fn resize(&mut self, new_size: usize, val: u8)
        requires
            old(self).wf(),
            new_size <= old(self).spec_capacity(),
        ensures
            final(self)@ == resized(old(self)@, new_size as nat, val),
            final(self).same_buffer(old(self)),
    {
        let old_size: usize = self.bytes.len();
        if new_size <= old_size {
            self.bytes.truncate(new_size);
        } else {
            let ghost before = self.bytes@;
            let mut i: usize = old_size;
            while i < new_size
                invariant
                    old_size <= i <= new_size,
                    new_size <= self.cap,
                    Self::valid_capacity(self.cap),
                    self.cap == old(self).cap,
                    self.pooled == old(self).pooled,
                    before.len() == old_size,
                    self.bytes@ == before + Seq::new((i - old_size) as nat, |j: int| val),
                decreases new_size - i,
            {
                self.bytes.push(val);
                i = i + 1;
                assert(self.bytes@ =~= before + Seq::new((i - old_size) as nat, |j: int| val));
            }
        }
    }

    /// Sets the length to `new_size` and every byte in use to `val`.
    pub fn clear_and_resize(&mut self, new_size: usize, val: u8)
        requires
            old(self).wf(),
            new_size <= old(self).spec_capacity(),
        ensures
            final(self)@ == Seq::new(new_size as nat, |i: int| val),
            final(self).same_buffer(old(self)),
    {
        self.clear();
        self.resize(new_size, val);
        assert(self@ =~= Seq::new(new_size as nat, |i: int| val));
    }

    /// Appends `buf` if it fits, and says whether it did. A buffer that
    /// refuses the bytes is left as it was.
    #[must_use]
    pub fn append(&mut self, buf: &[u8]) -> (ok: bool)
        requires
            old(self).wf(),
        ensures
            final(self).is_append_of(old(self), buf@, ok),
    {
        let old_len: usize = self.bytes.len();
        if buf.len() <= self.cap - old_len {
            self.bytes.extend_from_slice(buf);
            assert(self.bytes@ =~= old(self).bytes@ + buf@);
            true
        } else {
            false
        }
    }

    /// Appends `num` copies of `val` if they fit, and says whether they did.
    /// A buffer that refuses them is left as it was.
    #[must_use]
    pub fn repeat(&mut self, num: usize, val: u8) -> (ok: bool)
        requires
            old(self).wf(),
        ensures
            final(self).is_append_of(old(self), Seq::new(num as nat, |i: int| val), ok),
    {
        let old_len: usize = self.bytes.len();
        if num <= self.cap - old_len {
            self.resize(old_len + num, val);
            assert(self@ =~= old(self)@ + Seq::new(num as nat, |i: int| val));
            true
        } else {
            false
        }
    }

    /// Appends `buf` as [`Buf::append`] does, and reports a refusal as an error.
    pub fn write(&mut self, buf: &[u8]) -> (r: Result<usize, StreamError>)
        requires
            old(self).wf(),
        ensures
            final(self).is_append_of(old(self), buf@, r is Ok),
            r is Ok ==> r->Ok_0 == buf@.len(),
            r is Err ==> r->Err_0 == StreamError::InsufficientCapacity,
    {
        if self.append(buf) {
            Ok(buf.len())
        } else {
            Err(StreamError::InsufficientCapacity)
        }
    }

    /// The bytes in use.
    pub fn as_slice(&self) -> (r: &[u8])
        ensures
            r@ == self@,
    {
        self.bytes.as_slice()
    }

    /// The bytes in use, open to change. The length stays as it is.
    pub fn as_mut_slice(&mut self) -> (r: &mut [u8])
        requires
            old(self).wf(),
        ensures
            r@ == old(self)@,
            final(self)@ == final(r)@,
            final(self).spec_capacity() == old(self).spec_capacity(),
            final(self).spec_is_pooled() == old(self).spec_is_pooled(),
            final(r)@.len() == r@.len() ==> final(self).wf(),
    {
        self.bytes.as_mut_slice()
    }

    /// An iterator over the bytes in use, first to last.
    pub fn iter(&self) -> (r: core::slice::Iter<'_, u8>)
        ensures
            vstd::std_specs::slice::into_iter_elts(r) == self@,
    {
        self.bytes.as_slice().iter()
    }

    /// The byte at index `i`.
    pub fn get(&self, i: usize) -> (r: u8)
        requires
            i < self@.len(),
        ensures
            r == self@[i as int],
    {
        self.bytes[i]
    }

    /// Replaces the byte at index `i`.
    pub fn set(&mut self, i: usize, val: u8)
        requires
            old(self).wf(),
            i < old(self)@.len(),
        ensures
            final(self)@ == old(self)@.update(i as int, val),
            final(self).same_buffer(old(self)),
    {
        self.bytes[i] = val;
    }

    /// Copies the bytes at `src` to the place that starts at `dest`. The two
    /// ranges may overlap.
    pub fn copy_within(&mut self, src: core::ops::Range<usize>, dest: usize)
        requires
            old(self).wf(),
            src.start <= src.end <= old(self)@.len(),
            dest + (src.end - src.start) <= old(self)@.len(),
        ensures
            final(self)@ == copied_within(
                old(self)@,
                src.start as int,
                src.end as int,
                dest as int,
            ),
            final(self).same_buffer(old(self)),
    {
        let start: usize = src.start;
        let count: usize = src.end - src.start;
        let n: usize = self.bytes.len();
        let mut held: Vec<u8> = Vec::with_capacity(count);
        let mut i: usize = 0;
        while i < count
            invariant
                i <= count,
                n == self.bytes@.len(),
                start + count <= n,
                self.bytes@ == old(self).bytes@,
                held@ == self.bytes@.subrange(start as int, start + i),
            decreases count - i,
        {
            held.push(self.bytes[start + i]);
            i = i + 1;
            assert(held@ =~= self.bytes@.subrange(start as int, start + i));
        }
        let mut j: usize = 0;
        while j < count
            invariant
                j <= count,
                held@.len() == count,
                n == self.bytes@.len(),
                n == old(self).bytes@.len(),
                start + count <= n,
                dest + count <= n,
                self.cap == old(self).cap,
                self.pooled == old(self).pooled,
                held@ == old(self).bytes@.subrange(start as int, start + count),
                forall|k: int|
                    0 <= k < n ==> #[trigger] self.bytes@[k] == if dest <= k < dest + j {
                        old(self).bytes@[start + (k - dest)]
                    } else {
                        old(self).bytes@[k]
                    },
            decreases count - j,
        {
            assert(held@[j as int] == old(self).bytes@[start + j]);
            self.bytes[dest + j] = held[j];
            j = j + 1;
        }
        assert(self.bytes@ =~= copied_within(
            old(self).bytes@,
            src.start as int,
            src.end as int,
            dest as int,
        ));
    }
}

/// The capacity invariant: a buffer never holds more bytes than its
/// capacity, which is a multiple of 8 between 8 and the largest capacity.
pub proof fn lemma_capacity_invariant(b: Buf)
    requires
        b.wf(),
    ensures
        b@.len() <= b.spec_capacity(),
        0 < b.spec_capacity() <= Buf::MAX_CAPACITY,
        b.spec_capacity() % 8 == 0,
{
}

/// No mutation on failure: an append of bytes that do not fit is refused,
/// and the buffer holds what it held, byte for byte.
pub proof fn lemma_no_mutation_on_failure(prev: Buf, next: Buf, bytes: Seq<u8>, ok: bool)
    requires
        prev.wf(),
        next.is_append_of(&prev, bytes, ok),
        prev@.len() + bytes.len() > prev.spec_capacity(),
    ensures
        !ok,
        next@ == prev@,
        next@.len() == prev@.len(),
        next.spec_capacity() == prev.spec_capacity(),
{
}

/// Round trip: after an append that went in, the buffer holds what it held
/// before, followed by exactly the bytes appended.
pub proof fn lemma_append_round_trip(prev: Buf, next: Buf, bytes: Seq<u8>, ok: bool)
    requires
        prev.wf(),
        next.is_append_of(&prev, bytes, ok),
        prev@.len() + bytes.len() <= prev.spec_capacity(),
    ensures
        ok,
        next@ == prev@ + bytes,
        next@.take(prev@.len() as int) == prev@,
        next@.skip(prev@.len() as int) == bytes,
        next@.len() <= next.spec_capacity(),
{
    assert(next@.take(prev@.len() as int) =~= prev@);
    assert(next@.skip(prev@.len() as int) =~= bytes);
}

impl ByteSink for Buf {
    open spec fn sink_wf(&self) -> bool {
        self.wf()
    }

    open spec fn sink_bytes(&self) -> Seq<u8> {
        self@
    }

    open spec fn sink_room(&self) -> Option<nat> {
        Some((self.spec_capacity() - self@.len()) as nat)
    }

    /// Appends `buf` or nothing.
    fn write_all(&mut self, buf: &[u8]) -> (r: Result<(), StreamError>)
        ensures
            r is Err ==> r->Err_0 == StreamError::InsufficientCapacity && final(self)@ == old(self)@,
    {
        if self.append(buf) {
            Ok(())
        } else {
            assert(old(self)@.add(buf@.subrange(0, 0)) =~= self@);
            Err(StreamError::InsufficientCapacity)
        }
    }
}

impl Clone for Buf {
    /// A standalone buffer of the same capacity that holds the same bytes,
    /// whether `self` came out of a pool or not.
    fn clone(&self) -> (r: Buf)
        ensures
            r@ == self@,
            r.spec_capacity() == self.spec_capacity(),
            !r.spec_is_pooled(),
    {
        let mut bytes: Vec<u8> = Vec::with_capacity(self.cap);
        bytes.extend_from_slice(self.bytes.as_slice());
        assert(bytes@ =~= self.bytes@);
        Buf { bytes, cap: self.cap, pooled: false }
    }
}

impl PartialEq for Buf {
    fn eq(&self, other: &Buf) -> (r: bool) {
        crate::slices::bytes_equal(self.bytes.as_slice(), other.bytes.as_slice())
    }
}

impl vstd::std_specs::cmp::PartialEqSpecImpl for Buf {
    open spec fn obeys_eq_spec() -> bool {
        true
    }

    /// Two buffers are equal if they hold the same bytes, whatever their
    /// capacity and wherever they came from.
    open spec fn eq_spec(&self, other: &Buf) -> bool {
        self@ == other@
    }
}

impl Eq for Buf {

}

/// The order of two buffers: that of the bytes they hold, as in a
/// dictionary.
pub open spec fn order_of(a: Seq<u8>, b: Seq<u8>) -> Ordering {
    if lex_sign(a, b) < 0 {
        Ordering::Less
    } else if lex_sign(a, b) > 0 {
        Ordering::Greater
    } else {
        Ordering::Equal
    }
}

impl PartialOrd for Buf {
    fn partial_cmp(&self, other: &Buf) -> (r: Option<Ordering>) {
        let s: i8 = lex_order(self.bytes.as_slice(), other.bytes.as_slice());
        if s < 0 {
            Some(Ordering::Less)
        } else if s > 0 {
            Some(Ordering::Greater)
        } else {
            Some(Ordering::Equal)
        }
    }
}

impl vstd::std_specs::cmp::PartialOrdSpecImpl for Buf {
    open spec fn obeys_partial_cmp_spec() -> bool {
        true
    }

    /// Buffers are ordered by the bytes they hold, whatever their capacity
    /// and wherever they came from.
    open spec fn partial_cmp_spec(&self, other: &Buf) -> Option<Ordering> {
        Some(order_of(self@, other@))
    }
}

/// The stage of a pool's life.
#[derive(Clone, Copy, Debug, PartialEq, Eq, Structural)]
pub enum PoolState {
    /// The owner still holds the pool: buffers can be checked out.
    Alive,
    /// The owner has let go of the pool while buffers were still checked out.
    /// The storage stays until the last of them is back.
    TeardownPending,
    /// The owner has let go and every buffer is back: the storage is gone.
    TornDown,
}

/// A pool as its contracts see it.
pub struct PoolModel {
    /// The capacity of each buffer of the pool.
    pub buf_capacity: usize,
    /// The number of slots the pool was made with.
    pub pool_capacity: usize,
    /// The number of slots that are not checked out.
    pub available: nat,
    /// The number of slots whose storage the pool holds.
    pub held: nat,
    /// The stage of the pool's life.
    pub state: PoolState,
}

impl PoolModel {
    /// What holds of every pool.
    pub open spec fn wf(self) -> bool {
        &&& Buf::valid_capacity(self.buf_capacity)
        &&& self.pool_capacity > 0
        &&& self.available <= self.pool_capacity
        &&& match self.state {
            PoolState::Alive => self.held == self.available,
            PoolState::TeardownPending => self.held == self.available && self.available
                < self.pool_capacity,
            PoolState::TornDown => self.held == 0 && self.available == self.pool_capacity,
        }
    }

    /// The number of slots that are checked out.
    pub open spec fn outstanding(self) -> nat {
        (self.pool_capacity - self.available) as nat
    }

    /// A pool as it is made: alive, with every slot available.
    pub open spec fn fresh(buf_capacity: usize, pool_capacity: usize) -> PoolModel {
        PoolModel {
            buf_capacity,
            pool_capacity,
            available: pool_capacity as nat,
            held: pool_capacity as nat,
            state: PoolState::Alive,
        }
    }

    /// The pool after one checkout: one slot fewer is available, unless none
    /// was, which leaves the pool as it is.
    pub open spec fn after_get(self) -> PoolModel {
        if self.available > 0 {
            PoolModel {
                available: (self.available - 1) as nat,
                held: (self.held - 1) as nat,
                ..self
            }
        } else {
            self
        }
    }

    /// The pool after the release of one buffer. A standalone buffer leaves
    /// the pool as it is. A pooled one makes its slot available again, and
    /// where the owner has let go and this was the last buffer out, the pool
    /// is torn down.
    pub open spec fn after_release(self, pooled: bool) -> PoolModel {
        if !pooled {
            self
        } else if self.state == PoolState::TeardownPending && self.available + 1
            == self.pool_capacity {
            PoolModel { available: self.available + 1, held: 0, state: PoolState::TornDown, ..self }
        } else {
            PoolModel { available: self.available + 1, held: self.held + 1, ..self }
        }
    }

    /// The pool after its owner has let go of it: torn down at once where no
    /// buffer is checked out, and waiting for the last one otherwise.
    pub open spec fn after_close(self) -> PoolModel {
        if self.available == self.pool_capacity {
            PoolModel { held: 0, state: PoolState::TornDown, ..self }
        } else {
            PoolModel { state: PoolState::TeardownPending, ..self }
        }
    }

    /// The pool after `k` checkouts in a row.
    pub open spec fn after_gets(self, k: nat) -> PoolModel
        decreases k,
    {
        if k == 0 {
            self
        } else {
            self.after_get().after_gets((k - 1) as nat)
        }
    }

    /// The pool after the release of `k` pooled buffers in a row.
    pub open spec fn after_releases(self, k: nat) -> PoolModel
        decreases k,
    {
        if k == 0 {
            self
        } else {
            self.after_release(true).after_releases((k - 1) as nat)
        }
    }
}

/// A stock of buffers of one capacity.
///
/// A buffer that is checked out belongs to its holder until it is handed back
/// with [`Pool::release`]. When the stock is empty, [`Pool::get`] makes a
/// standalone buffer instead. The owner lets go of the pool with
/// [`Pool::close`]; the storage goes once the owner has let go and every
/// buffer is back.
pub struct Pool {
    buf_capacity: usize,
    pool_capacity: usize,
    free: Vec<Vec<u8>>,
    owner_dropped: bool,
    torn_down: bool,
}

impl View for Pool {
    type V = PoolModel;

    closed spec fn view(&self) -> PoolModel {
        PoolModel {
            buf_capacity: self.buf_capacity,
            pool_capacity: self.pool_capacity,
            available: if self.torn_down {
                self.pool_capacity as nat
            } else {
                self.free@.len()
            },
            held: self.free@.len(),
            state: if self.torn_down {
                PoolState::TornDown
            } else if self.owner_dropped {
                PoolState::TeardownPending
            } else {
                PoolState::Alive
            },
        }
    }
}

impl Pool {
    /// What holds of every pool: its model is well formed, and every buffer
    /// in stock is empty.
    pub closed spec fn wf(&self) -> bool {
        &&& self@.wf()
        &&& forall|i: int| 0 <= i < self.free@.len() ==> (#[trigger] self.free@[i])@.len() == 0
    }

    /// A well-formed pool has a well-formed model.
    pub proof fn lemma_wf(&self)
        requires
            self.wf(),
        ensures
            self@.wf(),
    {
    }

    /// Makes a pool of `pool_capacity` buffers of `buf_capacity` bytes each,
    /// all of them in stock.
    pub fn new(buf_capacity: usize, pool_capacity: usize) -> (r: Pool)
        requires
            Buf::valid_capacity(buf_capacity),
            pool_capacity > 0,
        ensures
            r.wf(),
            r@ == PoolModel::fresh(buf_capacity, pool_capacity),
    {
        let mut free: Vec<Vec<u8>> = Vec::with_capacity(pool_capacity);
        let mut i: usize = 0;
        while i < pool_capacity
            invariant
                i <= pool_capacity,
                free@.len() == i,
                forall|k: int| 0 <= k < free@.len() ==> (#[trigger] free@[k])@.len() == 0,
            decreases pool_capacity - i,
        {
            free.push(Vec::with_capacity(buf_capacity));
            i = i + 1;
        }
        Pool { buf_capacity, pool_capacity, free, owner_dropped: false, torn_down: false }
    }

    /// The capacity of each buffer of this pool.
    pub fn buf_capacity(&self) -> (r: usize)
        ensures
            r == self@.buf_capacity,
    {
        self.buf_capacity
    }

    /// The number of slots this pool was made with.
    pub fn pool_capacity(&self) -> (r: usize)
        ensures
            r == self@.pool_capacity,
    {
        self.pool_capacity
    }

    /// The stage of this pool's life.
    pub fn state(&self) -> (r: PoolState)
        ensures
            r == self@.state,
    {
        if self.torn_down {
            PoolState::TornDown
        } else if self.owner_dropped {
            PoolState::TeardownPending
        } else {
            PoolState::Alive
        }
    }

    /// The number of buffers in stock.
    pub fn pool_remaining(&self) -> (r: usize)
        ensures
            r == self@.available,
            self.wf() ==> self@.pool_capacity - r == self@.outstanding(),
    {
        if self.torn_down {
            self.pool_capacity
        } else {
            self.free.len()
        }
    }

    /// Checks a buffer out of the stock, or makes a standalone one if the
    /// stock is empty. Either way the buffer is empty and has this pool's
    /// buffer capacity.
    pub fn get(&mut self) -> (b: Buf)
        requires
            old(self).wf(),
            old(self)@.state == PoolState::Alive,
        ensures
            final(self).wf(),
            final(self)@ == old(self)@.after_get(),
            b.wf(),
            b@ == Seq::<u8>::empty(),
            b.spec_capacity() == old(self)@.buf_capacity,
            b.spec_is_pooled() == (old(self)@.available > 0),
    {
        match self.free.pop() {
            Some(bytes) => {
                assert(bytes@ == old(self).free@[old(self).free@.len() - 1]@);
                Buf { bytes, cap: self.buf_capacity, pooled: true }
            },
            None => Buf::new(self.buf_capacity),
        }
    }

    /// Checks out a buffer as [`Pool::get`] does if this pool's buffers hold
    /// `min_capacity` bytes, and makes a standalone buffer of exactly
    /// `min_capacity` bytes if they do not.
    pub fn get_with_min_capacity(&mut self, min_capacity: usize) -> (b: Buf)
        requires
            old(self).wf(),
            old(self)@.state == PoolState::Alive,
            min_capacity <= old(self)@.buf_capacity || Buf::valid_capacity(min_capacity),
        ensures
            final(self).wf(),
            b.wf(),
            b@ == Seq::<u8>::empty(),
            min_capacity <= old(self)@.buf_capacity ==> {
                &&& final(self)@ == old(self)@.after_get()
                &&& b.spec_capacity() == old(self)@.buf_capacity
                &&& b.spec_is_pooled() == (old(self)@.available > 0)
            },
            min_capacity > old(self)@.buf_capacity ==> {
                &&& final(self)@ == old(self)@
                &&& b.spec_capacity() == min_capacity
                &&& !b.spec_is_pooled()
            },
    {
        if self.buf_capacity >= min_capacity {
            self.get()
        } else {
            Buf::new(min_capacity)
        }
    }

    /// Takes a buffer back. A standalone buffer is dropped and the pool stays
    /// as it is. A pooled buffer is emptied and put in stock; if the owner
    /// has let go of the pool and this was the last buffer out, the storage
    /// of the pool is dropped.
    ///
    /// A pooled buffer can only come back while one is out.
    pub fn release(&mut self, buf: Buf)
        requires
            old(self).wf(),
            buf.wf(),
            buf.spec_is_pooled() ==> old(self)@.outstanding() > 0 && buf.spec_capacity() == old(self)@.buf_capacity,
        ensures
            final(self).wf(),
            final(self)@ == old(self)@.after_release(buf.spec_is_pooled()),
    {
        if buf.pooled {
            if self.owner_dropped && self.free.len() + 1 == self.pool_capacity {
                self.free = Vec::new();
                self.torn_down = true;
            } else {
                let mut bytes: Vec<u8> = buf.bytes;
                bytes.clear();
                self.free.push(bytes);
            }
        }
    }

    /// Lets go of the pool for its owner. Where no buffer is checked out the
    /// storage is dropped at once; otherwise it stays until the last buffer
    /// is back.
    pub fn close(&mut self)
        requires
            old(self).wf(),
            old(self)@.state == PoolState::Alive,
        ensures
            final(self).wf(),
            final(self)@ == old(self)@.after_close(),
    {
        self.owner_dropped = true;
        if self.free.len() == self.pool_capacity {
            self.free = Vec::new();
            self.torn_down = true;
        }
    }

    /// Whether the pool, as it stands, takes the buffer `buf` back: a
    /// standalone buffer always, and a pooled one if it has this pool's
    /// capacity and a slot of this pool is out.
    pub open spec fn takes_back(&self, buf: &Buf) -> bool {
        !buf.spec_is_pooled() || (buf.spec_capacity() == self@.buf_capacity && self@.outstanding()
            > 0)
    }

    /// Checks a buffer out of the pool as it is found, in whatever stage of
    /// its life. An alive pool does as [`Pool::get`] does. A pool whose owner
    /// has let go hands out nothing and stays as it is; the buffer then is a
    /// standalone one. Either way the buffer is empty and has this pool's
    /// buffer capacity.
    pub fn checkout(&mut self) -> (b: Buf)
        requires
            old(self).wf(),
        ensures
            final(self).wf(),
            b.wf(),
            b@ == Seq::<u8>::empty(),
            b.spec_capacity() == old(self)@.buf_capacity,
            old(self)@.state == PoolState::Alive ==> final(self)@ == old(self)@.after_get()
                && b.spec_is_pooled() == (old(self)@.available > 0),
            old(self)@.state != PoolState::Alive ==> final(self)@ == old(self)@
                && !b.spec_is_pooled(),
    {
        match self.state() {
            PoolState::Alive => self.get(),
            _ => Buf::new(self.buf_capacity),
        }
    }

    /// Takes a buffer back into the pool as it is found, and says whether it
    /// did. What the pool takes it takes as [`Pool::release`] does. A pooled
    /// buffer of another capacity, or one that comes while no slot is out,
    /// is refused and dropped, and the pool stays as it is.
    pub fn take_back(&mut self, buf: Buf) -> (taken: bool)
        requires
            old(self).wf(),
            buf.wf(),
        ensures
            final(self).wf(),
            taken == old(self).takes_back(&buf),
            final(self)@ == if taken {
                old(self)@.after_release(buf.spec_is_pooled())
            } else {
                old(self)@
            },
    {
        let taken: bool = !buf.is_pooled() || (buf.capacity() == self.buf_capacity
            && self.pool_remaining() < self.pool_capacity);
        if taken {
            self.release(buf);
        }
        taken
    }

    /// Lets go of the pool for its owner if the owner still holds it, as
    /// [`Pool::close`] does. A pool that was let go before stays as it is.
    pub fn retire(&mut self)
        requires
            old(self).wf(),
        ensures
            final(self).wf(),
            final(self)@ == if old(self)@.state == PoolState::Alive {
                old(self)@.after_close()
            } else {
                old(self)@
            },
    {
        match self.state() {
            PoolState::Alive => {
                self.close();
            },
            _ => {},
        }
    }
}

/// `k` checkouts from a pool that has at least `k` buffers in stock take
/// exactly `k` slots and change nothing else.
pub proof fn lemma_after_gets(m: PoolModel, k: nat)
    requires
        m.wf(),
        m.state == PoolState::Alive,
        k <= m.available,
    ensures
        m.after_gets(k) == (PoolModel {
            available: (m.available - k) as nat,
            held: (m.held - k) as nat,
            ..m
        }),
        m.after_gets(k).wf(),
    decreases k,
{
    if k > 0 {
        lemma_after_gets(m.after_get(), (k - 1) as nat);
    }
}

/// The release of `k` pooled buffers, of those that are checked out, gives
/// `k` slots back. The pool is torn down by the last of them if its owner
/// has let go, and not before.
pub proof fn lemma_after_releases(m: PoolModel, k: nat)
    requires
        m.wf(),
        k <= m.outstanding(),
    ensures
        m.after_releases(k).wf(),
        m.after_releases(k).available == m.available + k,
        m.after_releases(k).buf_capacity == m.buf_capacity,
        m.after_releases(k).pool_capacity == m.pool_capacity,
        m.state == PoolState::Alive ==> m.after_releases(k).state == PoolState::Alive,
        m.state == PoolState::TeardownPending && k < m.outstanding() ==> m.after_releases(k).state
            == PoolState::TeardownPending,
        m.state == PoolState::TeardownPending && k == m.outstanding() ==> m.after_releases(k).state
            == PoolState::TornDown,
    decreases k,
{
    if k > 0 {
        lemma_after_releases(m.after_release(true), (k - 1) as nat);
    }
}

/// Pool accounting. A fresh pool of `pool_capacity` slots has all of them
/// available. After `k` checkouts, `k` being no more than the slots, `k` are
/// out and the rest is available. After the release of those `k` buffers the
/// pool is as it was made.
pub proof fn lemma_pool_accounting(buf_capacity: usize, pool_capacity: usize, k: nat)
    requires
        Buf::valid_capacity(buf_capacity),
        pool_capacity > 0,
        k <= pool_capacity,
    ensures
        PoolModel::fresh(buf_capacity, pool_capacity).available == pool_capacity,
        PoolModel::fresh(buf_capacity, pool_capacity).after_gets(k).available == pool_capacity - k,
        PoolModel::fresh(buf_capacity, pool_capacity).after_gets(k).outstanding() == k,
        PoolModel::fresh(buf_capacity, pool_capacity).after_gets(k).after_releases(k)
            == PoolModel::fresh(buf_capacity, pool_capacity),
{
    let fresh = PoolModel::fresh(buf_capacity, pool_capacity);
    lemma_after_gets(fresh, k);
    lemma_after_releases(fresh.after_gets(k), k);
}

/// Exhaustion. Once every slot of a pool is out, any number of further
/// checkouts leaves the pool as it is: each of them is served by a
/// standalone buffer.
pub proof fn lemma_exhaustion_fallback(buf_capacity: usize, pool_capacity: usize, extra: nat)
    requires
        Buf::valid_capacity(buf_capacity),
        pool_capacity > 0,
    ensures
        PoolModel::fresh(buf_capacity, pool_capacity).after_gets(pool_capacity as nat).available
            == 0,
        PoolModel::fresh(buf_capacity, pool_capacity).after_gets(pool_capacity as nat).after_gets(
            extra,
        ) == PoolModel::fresh(buf_capacity, pool_capacity).after_gets(pool_capacity as nat),
    decreases extra,
{
    let fresh = PoolModel::fresh(buf_capacity, pool_capacity);
    lemma_after_gets(fresh, pool_capacity as nat);
    if extra > 0 {
        lemma_exhaustion_fallback(buf_capacity, pool_capacity, (extra - 1) as nat);
    }
}

/// The release of a standalone buffer, be it one that served a checkout from
/// an empty stock or the clone of a pooled buffer, leaves every pool as it
/// is.
pub proof fn lemma_standalone_release(m: PoolModel, b: Buf)
    requires
        !b.spec_is_pooled(),
    ensures
        m.after_release(b.spec_is_pooled()) == m,
{
}

/// Deferred teardown. When the owner lets go of a pool while `m` buffers are
/// out, the pool keeps its storage. It keeps it while fewer than `m` buffers
/// have come back, and is torn down when the last of them does.
pub proof fn lemma_deferred_teardown(buf_capacity: usize, pool_capacity: usize, m: nat, j: nat)
    requires
        Buf::valid_capacity(buf_capacity),
        pool_capacity > 0,
        0 < m <= pool_capacity,
        j <= m,
    ensures
        ({
            let closed = PoolModel::fresh(buf_capacity, pool_capacity).after_gets(m).after_close();
            let later = closed.after_releases(j);
            &&& closed.state == PoolState::TeardownPending
            &&& closed.held == pool_capacity - m
            &&& j < m ==> later.state == PoolState::TeardownPending && later.held == pool_capacity
                - m + j
            &&& j == m ==> later.state == PoolState::TornDown && later.held == 0
        }),
{
    let fresh = PoolModel::fresh(buf_capacity, pool_capacity);
    lemma_after_gets(fresh, m);
    let closed = fresh.after_gets(m).after_close();
    lemma_after_releases(closed, j);
}

/// A pool whose owner lets go while no buffer is out is torn down at once.
pub proof fn lemma_immediate_teardown(m: PoolModel)
    requires
        m.wf(),
        m.state == PoolState::Alive,
        m.outstanding() == 0,
    ensures
        m.after_close().state == PoolState::TornDown,
        m.after_close().held == 0,
{
}

/// What stays fixed in a pool that threads share: the capacity of its
/// buffers and the number of its slots.
pub struct PoolShape {
    pub buf_capacity: usize,
    pub pool_capacity: usize,
}

impl RwLockPredicate<Pool> for PoolShape {
    /// What holds of the pool whenever no thread is at work on it: it is
    /// well formed and of this shape.
    open spec fn inv(self, p: Pool) -> bool {
        &&& p.wf()
        &&& p@.buf_capacity == self.buf_capacity
        &&& p@.pool_capacity == self.pool_capacity
    }
}

/// A pool that threads share.
///
/// The pool sits behind a lock. Every operation takes the lock, does its
/// work on the pool in one piece, and lets the lock go, so that a slot is
/// never in stock and checked out at once, and the owner's letting go and
/// the return of the last buffer cannot miss each other. What a thread
/// learns about the stock may be out of date as soon as it has let the lock
/// go; the contracts state what holds whatever other threads do.
pub struct SharedPool {
    lock: RwLock<Pool, PoolShape>,
    buf_capacity: usize,
    pool_capacity: usize,
}

impl SharedPool {
    /// The capacity of each buffer of this pool.
    pub closed spec fn spec_buf_capacity(&self) -> usize {
        self.buf_capacity
    }

    /// The number of slots this pool was made with.
    pub closed spec fn spec_pool_capacity(&self) -> usize {
        self.pool_capacity
    }

    /// What holds of every shared pool.
    pub closed spec fn wf(&self) -> bool {
        &&& Buf::valid_capacity(self.buf_capacity)
        &&& self.pool_capacity > 0
        &&& self.lock.pred() == (PoolShape {
            buf_capacity: self.buf_capacity,
            pool_capacity: self.pool_capacity,
        })
    }

    /// Makes a pool of `pool_capacity` buffers of `buf_capacity` bytes each,
    /// all of them in stock.
    pub fn new(buf_capacity: usize, pool_capacity: usize) -> (r: SharedPool)
        requires
            Buf::valid_capacity(buf_capacity),
            pool_capacity > 0,
        ensures
            r.wf(),
            r.spec_buf_capacity() == buf_capacity,
            r.spec_pool_capacity() == pool_capacity,
    {
        let pool = Pool::new(buf_capacity, pool_capacity);
        let ghost shape = PoolShape { buf_capacity, pool_capacity };
        SharedPool { lock: RwLock::new(pool, Ghost(shape)), buf_capacity, pool_capacity }
    }

    /// The capacity of each buffer of this pool.
    pub fn buf_capacity(&self) -> (r: usize)
        ensures
            r == self.spec_buf_capacity(),
    {
        self.buf_capacity
    }

    /// The number of slots this pool was made with.
    pub fn pool_capacity(&self) -> (r: usize)
        ensures
            r == self.spec_pool_capacity(),
    {
        self.pool_capacity
    }

    /// The number of buffers that were in stock when the lock was held.
    pub fn pool_remaining(&self) -> (r: usize)
        requires
            self.wf(),
        ensures
            r <= self.spec_pool_capacity(),
    {
        let handle = self.lock.acquire_read();
        let r: usize = handle.borrow().pool_remaining();
        proof {
            handle.view().lemma_wf();
        }
        handle.release_read();
        r
    }

    /// The stage of the pool's life when the lock was held.
    pub fn state(&self) -> (r: PoolState)
        requires
            self.wf(),
    {
        let handle = self.lock.acquire_read();
        let r: PoolState = handle.borrow().state();
        handle.release_read();
        r
    }

    /// Checks a buffer out: takes the lock and does to the pool it finds
    /// what [`Pool::checkout`] does. The buffer comes out of the stock, or is
    /// a standalone one if the stock is empty or the owner has let go of the
    /// pool. Either way it is empty and has this pool's buffer capacity.
    pub fn get(&self) -> (b: Buf)
        requires
            self.wf(),
        ensures
            b.wf(),
            b@ == Seq::<u8>::empty(),
            b.spec_capacity() == self.spec_buf_capacity(),
    {
        let (mut pool, handle) = self.lock.acquire_write();
        let b: Buf = pool.checkout();
        handle.release_write(pool);
        b
    }

    /// Checks out a buffer as [`SharedPool::get`] does if this pool's
    /// buffers hold `min_capacity` bytes, and makes a standalone buffer of
    /// exactly `min_capacity` bytes if they do not.
    pub fn get_with_min_capacity(&self, min_capacity: usize) -> (b: Buf)
        requires
            self.wf(),
            min_capacity <= self.spec_buf_capacity() || Buf::valid_capacity(min_capacity),
        ensures
            b.wf(),
            b@ == Seq::<u8>::empty(),
            min_capacity <= self.spec_buf_capacity() ==> b.spec_capacity()
                == self.spec_buf_capacity(),
            min_capacity > self.spec_buf_capacity() ==> b.spec_capacity() == min_capacity
                && !b.spec_is_pooled(),
    {
        if self.buf_capacity >= min_capacity {
            self.get()
        } else {
            Buf::new(min_capacity)
        }
    }

    /// Takes a buffer back, and says whether it could: takes the lock and
    /// does to the pool it finds what [`Pool::take_back`] does. A standalone
    /// buffer can always be taken: it is dropped. A pooled buffer is refused
    /// and dropped if it is not of this pool's capacity or no slot of this
    /// pool is out.
    pub fn release(&self, buf: Buf) -> (taken: bool)
        requires
            self.wf(),
            buf.wf(),
        ensures
            !buf.spec_is_pooled() ==> taken,
            taken && buf.spec_is_pooled() ==> buf.spec_capacity() == self.spec_buf_capacity(),
    {
        let (mut pool, handle) = self.lock.acquire_write();
        let taken: bool = pool.take_back(buf);
        handle.release_write(pool);
        taken
    }

    /// Lets go of the pool for its owner: takes the lock and does to the
    /// pool it finds what [`Pool::retire`] does. A second call changes
    /// nothing.
    pub fn close(&self)
        requires
            self.wf(),
    {
        let (mut pool, handle) = self.lock.acquire_write();
        pool.retire();
        handle.release_write(pool);
    }
}

} // verus!
