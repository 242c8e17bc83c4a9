//! Byte-handling primitives for a packet-oriented network engine: buffers of
//! fixed capacity, a pool of them, codecs for hexadecimal text, Base64 and
//! variable-length integers, and an address type.

use vstd::prelude::*;
use vstd::std_specs::cmp::PartialEqSpec;

pub mod arrayvec;
pub mod base64;
pub mod blob;
pub mod buf;
pub mod buffer;
pub mod error;
pub mod hex;
pub mod immortal;
pub mod inetaddress;
pub mod memory;
pub mod slices;
pub mod stream;
pub mod tofrombytes;
pub mod varint;

verus! {

/// The value to start a tick counter with: a time so long ago that nothing
/// has happened since.
pub const NEVER_HAPPENED_TICKS: i64 = -4611686018427387904;

/// Returns true if the slice holds no element.
pub fn slice_is_empty<T>(s: &[T]) -> (r: bool)
    ensures
        r == (s@.len() == 0),
{
    s.len() == 0
}

/// Whether `v` equals the default value of its type.
pub fn is_default<V: Default + PartialEq>(v: &V) -> (r: bool)
    ensures
        V::obeys_eq_spec() ==> exists|d: V| #[trigger]
            call_ensures(V::default, (), d) && r == d.eq_spec(v),
{
    let d: V = V::default();
    d.eq(v)
}

/// Makes an array of `N` copies of `initial_value` on the heap, without a
/// copy of it on the stack.
pub fn alloc_array<T: Copy, const N: usize>(initial_value: T) -> (r: Option<Box<[T; N]>>)
    ensures
        r is Some,
        forall|i: int| 0 <= i < N ==> r->Some_0@[i] == initial_value,
{
    let mut v: Vec<T> = Vec::with_capacity(N);
    let mut i: usize = 0;
    while i < N
        invariant
            i <= N,
            v@.len() == i,
            forall|k: int| 0 <= k < i ==> v@[k] == initial_value,
        decreases N - i,
    {
        v.push(initial_value);
        i = i + 1;
    }
    slices::vec_into_boxed_array::<T, N>(v)
}

/// Makes an array of `N` items on the heap, the item at each index being
/// what `f` gives for that index. `f` is called once for each index, in
/// ascending order.
pub fn alloc_array_with<T, F: Fn(usize) -> T, const N: usize>(f: F) -> (r: Option<Box<[T; N]>>)
    requires
        forall|i: usize| i < N ==> call_requires(f, (i,)),
    ensures
        r is Some,
        forall|i: usize| i < N ==> call_ensures(f, (i,), #[trigger] r->Some_0@[i as int]),
{
    let mut v: Vec<T> = Vec::with_capacity(N);
    let mut i: usize = 0;
    while i < N
        invariant
            i <= N,
            v@.len() == i,
            forall|k: usize| k < N ==> call_requires(f, (k,)),
            forall|k: usize| k < i ==> call_ensures(f, (k,), #[trigger] v@[k as int]),
        decreases N - i,
    {
        v.push(f(i));
        i = i + 1;
    }
    slices::vec_into_boxed_array::<T, N>(v)
}

} // verus!
