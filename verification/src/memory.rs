//! Views of arrays and slices as arrays of another size.

use crate::slices::slice_as_array;
use vstd::prelude::*;

verus! {

/// The `LEN` items of `a` that start at index `START`, as an array.
pub fn array_range<T, const S: usize, const START: usize, const LEN: usize>(a: &[T; S]) -> (r: &[T; LEN])
    requires
        START + LEN <= S,
    ensures
        r@ == a@.subrange(START as int, START + LEN),
{
    let part: &[T] = vstd::slice::slice_subrange(a.as_slice(), START, START + LEN);
    match slice_as_array::<T, LEN>(part) {
        Some(r) => r,
        None => vstd::pervasive::unreached(),
    }
}

/// The chunk of `S` items of `a` at index `i`, counted in whole chunks from
/// the front, if `a` has that many whole chunks.
pub fn array_chunk<T, const S: usize>(a: &[T], i: usize) -> (r: Option<&[T; S]>)
    ensures
        r is Some <==> (i + 1) * S <= a@.len(),
        r is Some ==> r->Some_0@ == a@.subrange(i * S, (i + 1) * S),
{
    if S == 0 {
        let part: &[T] = vstd::slice::slice_subrange(a, 0, 0);
        assert(a@.subrange(i * S, (i + 1) * S) =~= part@) by (nonlinear_arith)
            requires
                S == 0,
                part@ == a@.subrange(0, 0),
        ;
        assert((i + 1) * S == 0) by (nonlinear_arith)
            requires
                S == 0,
        ;
        return slice_as_array::<T, S>(part);
    }
    let whole: usize = a.len() / S;
    if i < whole {
        assert((i + 1) * S <= a@.len() && i * S + S == (i + 1) * S) by (nonlinear_arith)
            requires
                i < whole,
                whole == a@.len() as int / S as int,
                S > 0,
        ;
        let start: usize = i * S;
        let part: &[T] = vstd::slice::slice_subrange(a, start, start + S);
        slice_as_array::<T, S>(part)
    } else {
        assert((i + 1) * S > a@.len()) by (nonlinear_arith)
            requires
                i >= whole,
                whole == a@.len() as int / S as int,
                S > 0,
        ;
        None
    }
}

} // verus!
