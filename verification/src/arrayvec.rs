//! A vector that holds at most a fixed number of items.

use crate::hex;
use crate::slices::ascii;
use crate::stream::{ByteSink, StreamError};
use core::cmp::Ordering;
use vstd::laws_cmp::obeys_cmp;
use vstd::prelude::*;
use vstd::std_specs::cmp::OrdSpec;

verus! {

/// The error of a push into a full vector. It gives the item back.
#[derive(Clone, Copy, Debug)]
pub struct OutOfCapacityError<T>(pub T);

impl<T> OutOfCapacityError<T> {
    /// The message that describes this error.
    pub fn to_string(&self) -> (r: String)
        ensures
            r@ == "ArrayVec out of space"@,
    {
        "ArrayVec out of space".to_owned()
    }
}

/// A vector of at most `C` items. Its view is the items it holds, in order.
#[derive(Debug, PartialEq, Eq, PartialOrd, Ord, Hash)]
pub struct ArrayVec<T, const C: usize> {
    a: Vec<T>,
}

impl<T, const C: usize> View for ArrayVec<T, C> {
    type V = Seq<T>;

    closed spec fn view(&self) -> Seq<T> {
        self.a@
    }
}

impl<T, const C: usize> ArrayVec<T, C> {
    /// What holds of every vector: it holds no more than `C` items.
    pub open spec fn wf(&self) -> bool {
        self@.len() <= C
    }

    /// Makes an empty vector.
    pub fn new() -> (r: Self)
        ensures
            r@ == Seq::<T>::empty(),
            r.wf(),
    {
        ArrayVec { a: Vec::new() }
    }

    /// Appends `v` to a vector that is not full.
    pub fn push(&mut self, v: T)
        requires
            old(self)@.len() < C,
        ensures
            final(self)@ == old(self)@.push(v),
            final(self).wf(),
    {
        self.a.push(v);
    }

    /// Appends `v` if the vector is not full, and gives it back if it is.
    pub fn try_push(&mut self, v: T) -> (r: Result<(), OutOfCapacityError<T>>)
        requires
            old(self).wf(),
        ensures
            final(self).wf(),
            r is Ok <==> old(self)@.len() < C,
            r is Ok ==> final(self)@ == old(self)@.push(v),
            r is Err ==> final(self)@ == old(self)@ && r->Err_0.0 == v,
    {
        if self.a.len() < C {
            self.a.push(v);
            Ok(())
        } else {
            Err(OutOfCapacityError(v))
        }
    }

    /// The items as a slice.
    pub fn as_bytes(&self) -> (r: &[T]) where T: Copy
        ensures
            r@ == self@,
    {
        self.a.as_slice()
    }

    /// The items as a slice.
    pub fn as_slice(&self) -> (r: &[T])
        ensures
            r@ == self@,
    {
        self.a.as_slice()
    }

    pub fn is_empty(&self) -> (r: bool)
        ensures
            r == (self@.len() == 0),
    {
        self.a.len() == 0
    }

    /// The number of items held.
    pub fn len(&self) -> (r: usize)
        ensures
            r == self@.len(),
    {
        self.a.len()
    }

    /// The most items the vector can hold.
    pub fn capacity(&self) -> (r: usize)
        ensures
            r == C,
    {
        C
    }

    /// The number of items that can still be pushed.
    pub fn capacity_remaining(&self) -> (r: usize)
        requires
            self.wf(),
        ensures
            r == C - self@.len(),
    {
        C - self.a.len()
    }

    /// An iterator over the items, first to last.
    pub fn iter(&self) -> (r: core::slice::Iter<'_, T>)
        ensures
            vstd::std_specs::slice::into_iter_elts(r) == self@,
    {
        self.a.as_slice().iter()
    }

    /// The first item, if there is one.
    pub fn first(&self) -> (r: Option<&T>)
        ensures
            r is Some <==> self@.len() > 0,
            r is Some ==> *r->Some_0 == self@[0],
    {
        if self.a.len() != 0 {
            Some(&self.a[0])
        } else {
            None
        }
    }

    /// The last item, if there is one.
    pub fn last(&self) -> (r: Option<&T>)
        ensures
            r is Some <==> self@.len() > 0,
            r is Some ==> *r->Some_0 == self@[self@.len() - 1],
    {
        if self.a.len() != 0 {
            Some(&self.a[self.a.len() - 1])
        } else {
            None
        }
    }

    /// Takes the last item off, if there is one.
    pub fn pop(&mut self) -> (r: Option<T>)
        requires
            old(self).wf(),
        ensures
            final(self).wf(),
            r is Some <==> old(self)@.len() > 0,
            r is Some ==> r->Some_0 == old(self)@.last() && final(self)@ == old(self)@.drop_last(),
            r is None ==> final(self)@ == old(self)@,
    {
        self.a.pop()
    }

    /// Takes every item off.
    pub fn clear(&mut self)
        ensures
            final(self)@ == Seq::<T>::empty(),
            final(self).wf(),
    {
        self.a.clear();
    }
}

impl<T: Copy, const C: usize> ArrayVec<T, C> {
    /// Appends the items of `v` to a vector that has room for them all.
    pub fn push_slice(&mut self, v: &[T])
        requires
            old(self)@.len() + v@.len() <= C,
        ensures
            final(self)@ == old(self)@ + v@,
            final(self).wf(),
    {
        let mut i: usize = 0;
        while i < v.len()
            invariant
                i <= v@.len(),
                old(self)@.len() + v@.len() <= C,
                self.a@ == old(self).a@ + v@.take(i as int),
            decreases v@.len() - i,
        {
            self.a.push(v[i]);
            i = i + 1;
            assert(self.a@ =~= old(self).a@ + v@.take(i as int));
        }
        assert(v@.take(v@.len() as int) =~= v@);
    }
}

impl<T, const C: usize> Default for ArrayVec<T, C> {
    fn default() -> (r: Self)
        ensures
            r@ == Seq::<T>::empty(),
    {
        ArrayVec { a: Vec::new() }
    }
}

impl<T: Clone, const C: usize> Clone for ArrayVec<T, C> {
    fn clone(&self) -> (r: Self)
        ensures
            r@.len() == self@.len(),
            forall|i: int| 0 <= i < self@.len() ==> cloned::<T>(#[trigger] self@[i], r@[i]),
    {
        ArrayVec { a: self.a.clone() }
    }
}

impl<const C: usize> ArrayVec<u8, C> {
    /// Appends the bytes of `buf` one by one until the vector is full.
    /// Returns how many were offered if all went in, and fails if not; the
    /// bytes that went in before the vector was full stay.
    pub fn write(&mut self, buf: &[u8]) -> (r: Result<usize, StreamError>)
        requires
            old(self).wf(),
        ensures
            final(self).wf(),
            r is Ok <==> old(self)@.len() + buf@.len() <= C,
            r is Ok ==> r->Ok_0 == buf@.len() && final(self)@ == old(self)@ + buf@,
            r is Err ==> r->Err_0 == StreamError::OutOfSpace && final(self)@ == old(self)@
                + buf@.take(C - old(self)@.len()),
    {
        let mut i: usize = 0;
        while i < buf.len()
            invariant
                i <= buf@.len(),
                old(self)@.len() <= C,
                self.a@.len() <= C,
                self.a@ == old(self).a@ + buf@.take(i as int),
            decreases buf@.len() - i,
        {
            if self.a.len() >= C {
                return Err(StreamError::OutOfSpace);
            }
            self.a.push(buf[i]);
            i = i + 1;
            assert(self.a@ =~= old(self).a@ + buf@.take(i as int));
        }
        assert(buf@.take(buf@.len() as int) =~= buf@);
        Ok(buf.len())
    }
}

impl<const C: usize> ByteSink for ArrayVec<u8, C> {
    open spec fn sink_wf(&self) -> bool {
        self.wf()
    }

    open spec fn sink_bytes(&self) -> Seq<u8> {
        self@
    }

    open spec fn sink_room(&self) -> Option<nat> {
        Some((C - self@.len()) as nat)
    }

    /// Appends as [`ArrayVec::write`] does: byte by byte until the vector
    /// is full.
    fn write_all(&mut self, buf: &[u8]) -> (r: Result<(), StreamError>)
        ensures
            r is Err ==> r->Err_0 == StreamError::OutOfSpace && final(self)@ == old(self)@
                + buf@.take(C - old(self)@.len()),
    {
        match self.write(buf) {
            Ok(_) => Ok(()),
            Err(e) => {
                assert(old(self)@.add(buf@.subrange(0, C - old(self)@.len())) =~= self@);
                Err(e)
            },
        }
    }
}

/// Whether the items of `s` stand in ascending order: none is greater than
/// one that follows it.
pub open spec fn ascending<T: Ord>(s: Seq<T>) -> bool {
    forall|i: int, j: int|
        0 <= i < j < s.len() ==> #[trigger] s[i].cmp_spec(&s[j]) != Ordering::Greater
}

/// Whether `now` holds the items of `before` moved about, `from` giving for
/// each place of `now` the place of `before` that its item came from, in
/// such a way that items that compare equal stand in `now` in the order in
/// which they stood in `before`.
pub open spec fn moved_keeping_equal_in_order<T: Ord>(
    now: Seq<T>,
    before: Seq<T>,
    from: Seq<int>,
) -> bool {
    &&& from.len() == now.len()
    &&& now.len() == before.len()
    &&& forall|i: int|
        0 <= i < now.len() ==> 0 <= #[trigger] from[i] < before.len() && now[i] == before[from[i]]
    &&& forall|i: int, j: int|
        #![trigger from[i], from[j]]
        0 <= i < j < now.len() ==> from[i] != from[j]
    &&& forall|i: int, j: int|
        0 <= i < j < now.len() && #[trigger] now[i].cmp_spec(&now[j]) == Ordering::Equal
            ==> from[i] < from[j]
}

/// Whether `now` is `before` put in another order without a change in the
/// order of items that compare equal.
pub open spec fn keeps_equal_in_order<T: Ord>(now: Seq<T>, before: Seq<T>) -> bool {
    exists|from: Seq<int>| moved_keeping_equal_in_order(now, before, from)
}

/// Sorts `v`, keeping the order of items that are equal.
///
/// Trusted: this is the `sort` of slices. For a type whose comparison is a
/// total order it leaves the same items, in ascending order, and it is
/// stable: items that compare equal are not put in another order.
#[verifier::external_body]
fn sort_stable<T: Ord>(v: &mut Vec<T>)
    requires
        obeys_cmp::<T>(),
    ensures
        final(v)@.len() == old(v)@.len(),
        final(v)@.to_multiset() == old(v)@.to_multiset(),
        ascending(final(v)@),
        keeps_equal_in_order(final(v)@, old(v)@),
{
    v.sort()
}

/// Sorts `v`; items that are equal may change places.
///
/// Trusted: this is the `sort_unstable` of slices. For a type whose
/// comparison is a total order it leaves the same items, in ascending order.
#[verifier::external_body]
fn sort_in_place<T: Ord>(v: &mut Vec<T>)
    requires
        obeys_cmp::<T>(),
    ensures
        final(v)@.len() == old(v)@.len(),
        final(v)@.to_multiset() == old(v)@.to_multiset(),
        ascending(final(v)@),
{
    v.sort_unstable()
}

impl<T, const C: usize> ArrayVec<T, C> {
    /// Puts the items in ascending order, items that compare equal staying
    /// in the order in which they stood. The comparison of `T` is a total
    /// order.
    pub fn sort(&mut self) where T: Ord
        requires
            old(self).wf(),
            obeys_cmp::<T>(),
        ensures
            final(self).wf(),
            final(self)@.len() == old(self)@.len(),
            final(self)@.to_multiset() == old(self)@.to_multiset(),
            ascending(final(self)@),
            keeps_equal_in_order(final(self)@, old(self)@),
    {
        sort_stable(&mut self.a);
    }

    /// Puts the items in ascending order. The comparison of `T` is a total
    /// order.
    pub fn sort_unstable(&mut self) where T: Ord
        requires
            old(self).wf(),
            obeys_cmp::<T>(),
        ensures
            final(self).wf(),
            final(self)@.to_multiset() == old(self)@.to_multiset(),
            ascending(final(self)@),
    {
        sort_in_place(&mut self.a);
    }

    /// The items as a slice, open to change. Their number stays as it is.
    pub fn as_mut_slice(&mut self) -> (r: &mut [T])
        ensures
            r@ == old(self)@,
            final(r)@ == final(self)@,
            old(self).wf() && final(r)@.len() == r@.len() ==> final(self).wf(),
    {
        self.a.as_mut_slice()
    }

    /// The vector of the items of `value`, if they are no more than `C`.
    /// If they are more, the first that does not fit comes back.
    pub fn try_from_vec(value: Vec<T>) -> (r: Result<Self, OutOfCapacityError<T>>)
        ensures
            r is Ok <==> value@.len() <= C,
            r is Ok ==> r->Ok_0@ == value@ && r->Ok_0.wf(),
            r is Err ==> r->Err_0.0 == value@[C as int],
    {
        let mut value = value;
        if value.len() <= C {
            Ok(ArrayVec { a: value })
        } else {
            value.truncate(C + 1);
            match value.pop() {
                Some(x) => Err(OutOfCapacityError(x)),
                None => Ok(ArrayVec { a: value }),
            }
        }
    }
}

impl<T: Clone, const C: usize> ArrayVec<T, C> {
    /// The vector of clones of the items of `value`, if they are no more
    /// than `C`. If they are more, a clone of the first that does not fit
    /// comes back.
    pub fn try_from_slice(value: &[T]) -> (r: Result<Self, OutOfCapacityError<T>>)
        ensures
            r is Ok <==> value@.len() <= C,
            r is Ok ==> r->Ok_0.wf() && r->Ok_0@.len() == value@.len() && forall|i: int|
                0 <= i < value@.len() ==> cloned::<T>(#[trigger] value@[i], r->Ok_0@[i]),
            r is Err ==> cloned::<T>(value@[C as int], r->Err_0.0),
    {
        let mut tmp: Vec<T> = Vec::new();
        let mut i: usize = 0;
        while i < value.len()
            invariant
                i <= value@.len(),
                i <= C,
                tmp@.len() == i,
                forall|k: int| 0 <= k < i ==> cloned::<T>(#[trigger] value@[k], tmp@[k]),
            decreases value@.len() - i,
        {
            let x: T = value[i].clone();
            if i >= C {
                return Err(OutOfCapacityError(x));
            }
            tmp.push(x);
            i = i + 1;
        }
        Ok(ArrayVec { a: tmp })
    }

    /// The vector of clones of the items of `v`, which are no more than `C`.
    pub fn from_array<const S: usize>(v: &[T; S]) -> (r: Self)
        requires
            S <= C,
        ensures
            r.wf(),
            r@.len() == S,
            forall|i: int| 0 <= i < S ==> cloned::<T>(#[trigger] v@[i], r@[i]),
    {
        match Self::try_from_slice(v.as_slice()) {
            Ok(r) => r,
            Err(_) => ArrayVec { a: Vec::new() },
        }
    }
}

impl<const C: usize> ArrayVec<u8, C> {
    /// The bytes as hexadecimal text.
    pub fn to_string(&self) -> (r: String)
        ensures
            r@ == ascii(hex::hex_of(self@)),
    {
        hex::to_string(self.a.as_slice())
    }
}

} // verus!
