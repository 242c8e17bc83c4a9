//! Small operations on byte slices that the other modules share.

use vstd::prelude::*;

verus! {

/// Whether two slices hold the same bytes.
pub fn bytes_equal(a: &[u8], b: &[u8]) -> (r: bool)
    ensures
        r == (a@ == b@),
{
    if a.len() != b.len() {
        return false;
    }
    let mut i: usize = 0;
    while i < a.len()
        invariant
            i <= a@.len(),
            a@.len() == b@.len(),
            forall|k: int| 0 <= k < i ==> a@[k] == b@[k],
        decreases a@.len() - i,
    {
        if a[i] != b[i] {
            return false;
        }
        i = i + 1;
    }
    assert(a@ =~= b@);
    true
}

/// The text whose characters are the bytes of `s`, each below 128.
pub open spec fn ascii(s: Seq<u8>) -> Seq<char> {
    Seq::new(s.len(), |i: int| s[i] as char)
}

/// Whether every byte of `s` is below 128.
pub open spec fn is_ascii(s: Seq<u8>) -> bool {
    forall|i: int| 0 <= i < s.len() ==> s[i] < 128
}

/// The string whose characters are the given bytes.
///
/// Trusted: this is `String::from_utf8`, called on bytes below 128 only. Each
/// such byte is one character of UTF-8, so the call succeeds and the string
/// has one character for each byte, with the byte's number.
#[verifier::external_body]
pub(crate) fn string_from_ascii(v: Vec<u8>) -> (r: String)
    requires
        is_ascii(v@),
    ensures
        r@ == ascii(v@),
{
    match String::from_utf8(v) {
        Ok(s) => s,
        Err(_) => String::new(),
    }
}

/// The slice `s` as an array of `N` items, if it has as many.
///
/// Trusted: this is the conversion of a slice to a reference to an array,
/// `TryFrom<&[T]>` for `&[T; N]`. It succeeds exactly where the slice has `N`
/// items, and the array then is the slice's own memory: the same items.
#[verifier::external_body]
pub(crate) fn slice_as_array<T, const N: usize>(s: &[T]) -> (r: Option<&[T; N]>)
    ensures
        r is Some <==> s@.len() == N,
        r is Some ==> r->Some_0@ == s@,
{
    match <&[T; N]>::try_from(s) {
        Ok(a) => Some(a),
        Err(_) => None,
    }
}

/// The slice `s` as an array of `N` items, open to change, if it has as
/// many.
///
/// Trusted: this is the conversion of a mutable slice to a mutable reference
/// to an array, `TryFrom<&mut [T]>` for `&mut [T; N]`. It succeeds exactly
/// where the slice has `N` items, and the array then is the slice's own
/// memory: what is written to the one is in the other.
#[verifier::external_body]
pub(crate) fn slice_as_array_mut<T, const N: usize>(s: &mut [T]) -> (r: Option<&mut [T; N]>)
    ensures
        r is Some <==> old(s)@.len() == N,
        match r {
            Some(a) => a@ == old(s)@ && final(a)@ == final(s)@,
            None => final(s)@ == old(s)@,
        },
{
    match <&mut [T; N]>::try_from(s) {
        Ok(a) => Some(a),
        Err(_) => None,
    }
}

/// The vector `v` as a boxed array of `N` items, if it has as many.
///
/// Trusted: this is the conversion of a vector to a boxed array,
/// `TryFrom<Vec<T>>` for `Box<[T; N]>`. It succeeds exactly where the vector
/// has `N` items, and the array then holds those items in their order.
#[verifier::external_body]
pub(crate) fn vec_into_boxed_array<T, const N: usize>(v: Vec<T>) -> (r: Option<Box<[T; N]>>)
    ensures
        r is Some <==> v@.len() == N,
        r is Some ==> r->Some_0@ == v@,
{
    match Box::<[T; N]>::try_from(v) {
        Ok(b) => Some(b),
        Err(_) => None,
    }
}

/// The number that two bytes spell, the high byte first.
pub open spec fn be16(b: Seq<u8>) -> u16
    recommends
        b.len() == 2,
{
    (b[0] * 0x100 + b[1]) as u16
}

/// The number that four bytes spell, the highest byte first.
pub open spec fn be32(b: Seq<u8>) -> u32
    recommends
        b.len() == 4,
{
    (b[0] * 0x100_0000 + b[1] * 0x1_0000 + b[2] * 0x100 + b[3]) as u32
}

/// The number that eight bytes spell, the highest byte first.
pub open spec fn be64(b: Seq<u8>) -> u64
    recommends
        b.len() == 8,
{
    (b[0] * 0x100_0000_0000_0000 + b[1] * 0x1_0000_0000_0000 + b[2] * 0x100_0000_0000 + b[3]
        * 0x1_0000_0000 + b[4] * 0x100_0000 + b[5] * 0x1_0000 + b[6] * 0x100 + b[7]) as u64
}

/// The two bytes of `v`, the high byte first.
pub open spec fn be16_bytes(v: u16) -> Seq<u8> {
    seq![(v / 0x100) as u8, (v % 0x100) as u8]
}

/// The four bytes of `v`, the highest byte first.
pub open spec fn be32_bytes(v: u32) -> Seq<u8> {
    seq![
        (v / 0x100_0000) as u8,
        (v / 0x1_0000 % 0x100) as u8,
        (v / 0x100 % 0x100) as u8,
        (v % 0x100) as u8,
    ]
}

/// The eight bytes of `v`, the highest byte first.
pub open spec fn be64_bytes(v: u64) -> Seq<u8> {
    seq![
        (v / 0x100_0000_0000_0000) as u8,
        (v / 0x1_0000_0000_0000 % 0x100) as u8,
        (v / 0x100_0000_0000 % 0x100) as u8,
        (v / 0x1_0000_0000 % 0x100) as u8,
        (v / 0x100_0000 % 0x100) as u8,
        (v / 0x1_0000 % 0x100) as u8,
        (v / 0x100 % 0x100) as u8,
        (v % 0x100) as u8,
    ]
}

/// The bytes of a 16-bit number are the bytes that spell it.
pub proof fn lemma_be16_round_trip(v: u16)
    ensures
        be16(be16_bytes(v)) == v,
{
}

/// The bytes of a 32-bit number are the bytes that spell it.
pub proof fn lemma_be32_round_trip(v: u32)
    ensures
        be32(be32_bytes(v)) == v,
{
}

/// The bytes of a 64-bit number are the bytes that spell it.
pub proof fn lemma_be64_round_trip(v: u64)
    ensures
        be64(be64_bytes(v)) == v,
{
    let b = be64_bytes(v);
    let b0: u64 = b[0] as u64;
    let b1: u64 = b[1] as u64;
    let b2: u64 = b[2] as u64;
    let b3: u64 = b[3] as u64;
    let b4: u64 = b[4] as u64;
    let b5: u64 = b[5] as u64;
    let b6: u64 = b[6] as u64;
    let b7: u64 = b[7] as u64;
    assert(b0 * 0x100_0000_0000_0000 + b1 * 0x1_0000_0000_0000 + b2 * 0x100_0000_0000 + b3
        * 0x1_0000_0000 + b4 * 0x100_0000 + b5 * 0x1_0000 + b6 * 0x100 + b7 == v) by (bit_vector)
        requires
            b0 == v / 0x100_0000_0000_0000,
            b1 == v / 0x1_0000_0000_0000 % 0x100,
            b2 == v / 0x100_0000_0000 % 0x100,
            b3 == v / 0x1_0000_0000 % 0x100,
            b4 == v / 0x100_0000 % 0x100,
            b5 == v / 0x1_0000 % 0x100,
            b6 == v / 0x100 % 0x100,
            b7 == v % 0x100,
    ;
}

/// The two bytes of `v`, the high byte first.
pub fn u16_to_be(v: u16) -> (r: [u8; 2])
    ensures
        r@ == be16_bytes(v),
{
    let r: [u8; 2] = [(v / 0x100) as u8, (v % 0x100) as u8];
    assert(r@ =~= be16_bytes(v));
    r
}

/// The four bytes of `v`, the highest byte first.
pub fn u32_to_be(v: u32) -> (r: [u8; 4])
    ensures
        r@ == be32_bytes(v),
{
    let r: [u8; 4] = [
        (v / 0x100_0000) as u8,
        (v / 0x1_0000 % 0x100) as u8,
        (v / 0x100 % 0x100) as u8,
        (v % 0x100) as u8,
    ];
    assert(r@ =~= be32_bytes(v));
    r
}

/// The eight bytes of `v`, the highest byte first.
pub fn u64_to_be(v: u64) -> (r: [u8; 8])
    ensures
        r@ == be64_bytes(v),
{
    let r: [u8; 8] = [
        (v / 0x100_0000_0000_0000) as u8,
        (v / 0x1_0000_0000_0000 % 0x100) as u8,
        (v / 0x100_0000_0000 % 0x100) as u8,
        (v / 0x1_0000_0000 % 0x100) as u8,
        (v / 0x100_0000 % 0x100) as u8,
        (v / 0x1_0000 % 0x100) as u8,
        (v / 0x100 % 0x100) as u8,
        (v % 0x100) as u8,
    ];
    assert(r@ =~= be64_bytes(v));
    r
}

/// The number that the two bytes of `b` spell, the high byte first.
pub fn u16_from_be(b: &[u8]) -> (v: u16)
    requires
        b@.len() == 2,
    ensures
        v == be16(b@),
{
    (b[0] as u16) * 0x100 + (b[1] as u16)
}

/// The number that the four bytes of `b` spell, the highest byte first.
pub fn u32_from_be(b: &[u8]) -> (v: u32)
    requires
        b@.len() == 4,
    ensures
        v == be32(b@),
{
    (b[0] as u32) * 0x100_0000 + (b[1] as u32) * 0x1_0000 + (b[2] as u32) * 0x100 + (b[3] as u32)
}

/// The number that the eight bytes of `b` spell, the highest byte first.
pub fn u64_from_be(b: &[u8]) -> (v: u64)
    requires
        b@.len() == 8,
    ensures
        v == be64(b@),
{
    (b[0] as u64) * 0x100_0000_0000_0000 + (b[1] as u64) * 0x1_0000_0000_0000 + (b[2] as u64)
        * 0x100_0000_0000 + (b[3] as u64) * 0x1_0000_0000 + (b[4] as u64) * 0x100_0000 + (
    b[5] as u64) * 0x1_0000 + (b[6] as u64) * 0x100 + (b[7] as u64)
}

/// `s` with the bytes that start at index `at` replaced by `bytes`.
pub open spec fn overwritten(s: Seq<u8>, at: int, bytes: Seq<u8>) -> Seq<u8> {
    Seq::new(
        s.len(),
        |i: int|
            if at <= i < at + bytes.len() {
                bytes[i - at]
            } else {
                s[i]
            },
    )
}

/// `n` bytes that all are `val`.
pub open spec fn filled(n: nat, val: u8) -> Seq<u8> {
    Seq::new(n, |i: int| val)
}

/// How `a` stands to `b` in the order of the dictionary: -1 where `a` comes
/// first, 1 where `b` does, 0 where they are the same. The first byte in
/// which they differ decides; where there is none, the shorter comes first.
pub open spec fn lex_sign(a: Seq<u8>, b: Seq<u8>) -> int
    decreases a.len(),
{
    if a.len() == 0 {
        if b.len() == 0 {
            0
        } else {
            -1
        }
    } else if b.len() == 0 {
        1
    } else if a[0] < b[0] {
        -1
    } else if a[0] > b[0] {
        1
    } else {
        lex_sign(a.drop_first(), b.drop_first())
    }
}

/// Bytes are the same exactly where neither comes before the other.
pub proof fn lemma_lex_sign_zero(a: Seq<u8>, b: Seq<u8>)
    ensures
        lex_sign(a, b) == 0 <==> a == b,
        -1 <= lex_sign(a, b) <= 1,
    decreases a.len(),
{
    if a.len() > 0 && b.len() > 0 {
        lemma_lex_sign_zero(a.drop_first(), b.drop_first());
        if a[0] == b[0] && a.drop_first() == b.drop_first() {
            assert(a =~= seq![a[0]] + a.drop_first());
            assert(b =~= seq![b[0]] + b.drop_first());
        }
    } else if a.len() == 0 && b.len() == 0 {
        assert(a =~= b);
    }
}

/// The order turns round when the two sides change places.
pub proof fn lemma_lex_sign_swap(a: Seq<u8>, b: Seq<u8>)
    ensures
        lex_sign(b, a) == -lex_sign(a, b),
    decreases a.len(),
{
    if a.len() > 0 && b.len() > 0 {
        lemma_lex_sign_swap(a.drop_first(), b.drop_first());
    }
}

/// How `a` stands to `b` in the order of the dictionary: -1, 0 or 1.
pub fn lex_order(a: &[u8], b: &[u8]) -> (r: i8)
    ensures
        r == lex_sign(a@, b@),
{
    let mut i: usize = 0;
    assert(a@.skip(0) =~= a@ && b@.skip(0) =~= b@);
    while i < a.len() && i < b.len()
        invariant
            i <= a@.len(),
            i <= b@.len(),
            lex_sign(a@, b@) == lex_sign(a@.skip(i as int), b@.skip(i as int)),
        decreases a@.len() - i,
    {
        if a[i] < b[i] {
            return -1;
        }
        if a[i] > b[i] {
            return 1;
        }
        proof {
            assert(a@.skip(i as int).drop_first() =~= a@.skip(i + 1));
            assert(b@.skip(i as int).drop_first() =~= b@.skip(i + 1));
        }
        i = i + 1;
    }
    if i < b.len() {
        -1
    } else if i < a.len() {
        1
    } else {
        0
    }
}

} // verus!
