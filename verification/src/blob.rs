//! A block of bytes of fixed size.

use crate::base64;
use crate::hex;
use crate::slices::{ascii, slice_as_array};
use vstd::prelude::*;

verus! {

/// Why bytes or text were refused as a blob.
#[derive(Clone, Copy, Debug, PartialEq, Eq, Structural)]
pub enum BlobError {
    /// The text is no Base64.
    InvalidBase64,
    /// The number of bytes, given here, is not that of the blob.
    InvalidLength(usize),
}

/// `L` bytes. Blobs are ordered as their bytes are, the first byte counting
/// most.
#[derive(Clone, Debug, Eq, PartialEq, PartialOrd, Ord, Hash)]
pub struct Blob<const L: usize>([u8; L]);

impl<const L: usize> View for Blob<L> {
    type V = Seq<u8>;

    closed spec fn view(&self) -> Seq<u8> {
        self.0@
    }
}

impl<const L: usize> Blob<L> {
    /// A blob has `L` bytes.
    pub proof fn lemma_len(&self)
        ensures
            self@.len() == L,
    {
    }

    pub fn as_bytes(&self) -> (r: &[u8; L])
        ensures
            r@ == self@,
    {
        &self.0
    }

    /// The bytes, open to change.
    pub fn as_bytes_mut(&mut self) -> (r: &mut [u8; L])
        ensures
            r@ == old(self)@,
            final(r)@ == final(self)@,
    {
        &mut self.0
    }

    pub fn len(&self) -> (r: usize)
        ensures
            r == L,
            r == self@.len(),
    {
        L
    }

    /// The blob of the given bytes.
    pub fn new(a: [u8; L]) -> (r: Self)
        ensures
            r@ == a@,
    {
        Blob(a)
    }

    /// The bytes of the blob.
    pub fn into_array(self) -> (r: [u8; L])
        ensures
            r@ == self@,
    {
        self.0
    }

    /// The blob of the bytes of `value`, if there are `L` of them.
    pub fn try_from_slice(value: &[u8]) -> (r: Result<Self, BlobError>)
        ensures
            r is Ok <==> value@.len() == L,
            r is Ok ==> r->Ok_0@ == value@,
            r is Err ==> r->Err_0 == BlobError::InvalidLength(value@.len() as usize),
    {
        match slice_as_array::<u8, L>(value) {
            Some(a) => Ok(Blob(*a)),
            None => Err(BlobError::InvalidLength(value.len())),
        }
    }

    /// The bytes as hexadecimal text.
    pub fn to_string(&self) -> (r: String)
        ensures
            r@ == ascii(hex::hex_of(self@)),
    {
        hex::to_string(self.0.as_slice())
    }

    /// The bytes as Base64 text, the form of a blob where people read it.
    pub fn to_base64(&self) -> (r: String)
        ensures
            r@ == base64::encoded(self@),
    {
        base64::to_string(self.0.as_slice())
    }

    /// The result of reading a blob from Base64 text, given what the text
    /// decodes to.
    pub open spec fn from_decoded(d: Option<Seq<u8>>, r: Result<Self, BlobError>) -> bool {
        match d {
            None => r is Err && r->Err_0 == BlobError::InvalidBase64,
            Some(b) => if b.len() == L {
                r is Ok && r->Ok_0@ == b
            } else {
                r is Err && r->Err_0 == BlobError::InvalidLength(b.len() as usize)
            },
        }
    }

    /// The blob that the Base64 text `s` stands for, if it stands for `L`
    /// bytes.
    pub fn from_base64(s: &[u8]) -> (r: Result<Self, BlobError>)
        ensures
            Self::from_decoded(base64::decoded(s@), r),
    {
        match base64::from_string(s) {
            Some(b) => Self::try_from_slice(b.as_slice()),
            None => Err(BlobError::InvalidBase64),
        }
    }
}

impl<const L: usize> Default for Blob<L> {
    fn default() -> (r: Self)
        ensures
            r@ == Seq::new(L as nat, |i: int| 0u8),
    {
        let r = Blob([0u8; L]);
        assert(r@ =~= Seq::new(L as nat, |i: int| 0u8));
        r
    }
}

impl<const L: usize> core::ops::Deref for Blob<L> {
    type Target = [u8; L];

    fn deref(&self) -> (r: &[u8; L])
        ensures
            r@ == self@,
    {
        &self.0
    }
}

impl<const L: usize> From<[u8; L]> for Blob<L> {
    fn from(a: [u8; L]) -> (r: Self) {
        Blob(a)
    }
}

impl<const L: usize> vstd::std_specs::convert::FromSpecImpl<[u8; L]> for Blob<L> {
    open spec fn obeys_from_spec() -> bool {
        true
    }

    /// The blob of the bytes of `a`.
    open spec fn from_spec(a: [u8; L]) -> Self {
        Blob::<L>::of(a)
    }
}

impl<const L: usize> Blob<L> {
    /// The blob of the bytes of `a`.
    pub closed spec fn of(a: [u8; L]) -> Self {
        Blob(a)
    }

    /// The blob of an array holds the array's bytes.
    pub proof fn lemma_of(a: [u8; L])
        ensures
            Self::of(a)@ == a@,
    {
    }
}

} // verus!
