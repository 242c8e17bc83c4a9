//! A value that lives as long as the process.

use vstd::prelude::*;

verus! {

/// A handle to a value that is never dropped. Handles can be copied freely;
/// all copies lead to the one value.
pub struct Immortal<T: 'static>(&'static T);

impl<T: 'static> View for Immortal<T> {
    type V = T;

    /// The value that the handle leads to.
    closed spec fn view(&self) -> T {
        *self.0
    }
}

/// Trusted: this is `Box::leak`, which gives up ownership of the box and
/// returns a reference to what was in it, good for the rest of the process.
#[verifier::external_body]
fn leak<T: 'static>(b: Box<T>) -> (r: &'static T)
    ensures
        *r == *b,
{
    Box::leak(b)
}

impl<T: 'static> Immortal<T> {
    /// Moves `obj` to a place of its own, where it stays.
    pub fn new(obj: T) -> (r: Self)
        ensures
            r@ == obj,
    {
        Immortal(leak(Box::new(obj)))
    }

    /// The value.
    pub fn as_ref(&self) -> (r: &T)
        ensures
            *r == self@,
    {
        self.0
    }
}

impl<T: 'static> Clone for Immortal<T> {
    fn clone(&self) -> (r: Self)
        ensures
            r@ == self@,
    {
        Immortal(self.0)
    }
}

impl<T: 'static> Copy for Immortal<T> {

}

impl<T: 'static> core::ops::Deref for Immortal<T> {
    type Target = T;

    fn deref(&self) -> (r: &T)
        ensures
            *r == self@,
    {
        self.0
    }
}

} // verus!
