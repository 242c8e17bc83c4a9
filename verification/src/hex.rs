//! Bytes and numbers as hexadecimal text, and back.

use crate::slices::{ascii, is_ascii, string_from_ascii};
use vstd::prelude::*;
use vstd::string::StringSliceAdditionalSpecFns;

verus! {

/// The sixteen hexadecimal digits, in lower case.
pub const HEX_CHARS: [u8; 16] = [
    48, 49, 50, 51, 52, 53, 54, 55, 56, 57, 97, 98, 99, 100, 101, 102,
];

/// The character for the hexadecimal digit `n`, in lower case.
pub open spec fn hex_char(n: int) -> u8 {
    if n < 10 {
        (48 + n) as u8
    } else {
        (87 + n) as u8
    }
}

/// The hexadecimal text of `b`: two digits for each byte, the high one first.
pub open spec fn hex_of(b: Seq<u8>) -> Seq<u8> {
    Seq::new(
        2 * b.len(),
        |i: int|
            if i % 2 == 0 {
                hex_char(b[i / 2] as int / 16)
            } else {
                hex_char(b[i / 2] as int % 16)
            },
    )
}

/// The digit of `i` at place `k`, counted from the highest of its sixteen.
pub open spec fn nibble(i: u64, k: int) -> u64 {
    (i >> ((60 - 4 * k) as u64)) & 0xf
}

/// The sixteen hexadecimal digits of `i`, the highest first.
pub open spec fn hex_of_u64(i: u64) -> Seq<u8> {
    Seq::new(16, |k: int| hex_char(nibble(i, k) as int))
}

/// `s` without the zero digits at its front.
pub open spec fn without_leading_zeroes(s: Seq<u8>) -> Seq<u8>
    decreases s.len(),
{
    if s.len() > 0 && s[0] == 48 {
        without_leading_zeroes(s.drop_first())
    } else {
        s
    }
}

/// The text of `i`: its sixteen digits, with or without the zeroes at the
/// front. Without them, zero is the empty text.
pub open spec fn text_of_u64(i: u64, skip_leading_zeroes: bool) -> Seq<u8> {
    if skip_leading_zeroes {
        without_leading_zeroes(hex_of_u64(i))
    } else {
        hex_of_u64(i)
    }
}

/// What the character `c` is worth as a hexadecimal digit, in either case.
pub open spec fn hex_value(c: u8) -> Option<u8> {
    if 48 <= c <= 57 {
        Some((c - 48) as u8)
    } else if 65 <= c <= 70 {
        Some((c - 55) as u8)
    } else if 97 <= c <= 102 {
        Some((c - 87) as u8)
    } else {
        None
    }
}

/// The hexadecimal digits among the characters of `s`, in order, each by what
/// it is worth.
pub open spec fn hex_digits(s: Seq<u8>) -> Seq<u8>
    decreases s.len(),
{
    if s.len() == 0 {
        Seq::empty()
    } else {
        match hex_value(s.last()) {
            Some(d) => hex_digits(s.drop_last()).push(d),
            None => hex_digits(s.drop_last()),
        }
    }
}

/// The bytes that the digits `d` spell, two digits to a byte. A last digit
/// without a partner is left out.
pub open spec fn paired(d: Seq<u8>) -> Seq<u8> {
    Seq::new(d.len() / 2, |j: int| (16 * d[2 * j] + d[2 * j + 1]) as u8)
}

/// The number that the bytes `p` spell, the highest byte first. Of more than
/// eight bytes the last eight count.
pub open spec fn be_value(p: Seq<u8>) -> u64
    decreases p.len(),
{
    if p.len() == 0 {
        0
    } else {
        ((be_value(p.drop_last()) % 0x100_0000_0000_0000) * 256 + p.last()) as u64
    }
}

proof fn lemma_hex_char_is_ascii(n: int)
    requires
        0 <= n < 16,
    ensures
        hex_char(n) < 128,
        hex_char(n) == 48 <==> n == 0,
{
}

proof fn lemma_hex_digits_of_digits(s: Seq<u8>)
    requires
        forall|i: int| 0 <= i < s.len() ==> hex_value(#[trigger] s[i]) is Some,
    ensures
        hex_digits(s).len() == s.len(),
        forall|i: int| 0 <= i < s.len() ==> Some(#[trigger] hex_digits(s)[i]) == hex_value(s[i]),
    decreases s.len(),
{
    if s.len() > 0 {
        lemma_hex_digits_of_digits(s.drop_last());
        assert(hex_value(s.last()) is Some);
    }
}

/// Round trip: the hexadecimal text of bytes decodes to those bytes.
pub proof fn lemma_hex_round_trip(b: Seq<u8>)
    ensures
        paired(hex_digits(hex_of(b))) == b,
{
    let text = hex_of(b);
    assert forall|i: int| 0 <= i < text.len() implies hex_value(#[trigger] text[i]) is Some by {
        let n: int = if i % 2 == 0 {
            b[i / 2] as int / 16
        } else {
            b[i / 2] as int % 16
        };
        assert(text[i] == hex_char(n));
        assert(hex_value(hex_char(n)) == Some(n as u8));
    }
    lemma_hex_digits_of_digits(text);
    let d = hex_digits(text);
    assert forall|j: int| 0 <= j < b.len() implies #[trigger] paired(d)[j] == b[j] by {
        assert(Some(d[2 * j]) == hex_value(text[2 * j]));
        assert(Some(d[2 * j + 1]) == hex_value(text[2 * j + 1]));
        assert(text[2 * j] == hex_char(b[j] as int / 16));
        assert(text[2 * j + 1] == hex_char(b[j] as int % 16));
    }
    assert(paired(d) =~= b);
}

fn hex_digit(n: u8) -> (r: u8)
    requires
        n < 16,
    ensures
        r == hex_char(n as int),
        r == HEX_CHARS@[n as int],
{
    HEX_CHARS[n as usize]
}

fn hex_bytes(b: &[u8]) -> (v: Vec<u8>)
    ensures
        v@ == hex_of(b@),
        is_ascii(v@),
{
    let mut v: Vec<u8> = Vec::new();
    let mut i: usize = 0;
    while i < b.len()
        invariant
            i <= b@.len(),
            v@ == hex_of(b@.take(i as int)),
            is_ascii(v@),
        decreases b@.len() - i,
    {
        let x: u8 = b[i];
        v.push(hex_digit(x / 16));
        v.push(hex_digit(x % 16));
        i = i + 1;
        assert(v@ =~= hex_of(b@.take(i as int)));
    }
    assert(b@.take(b@.len() as int) =~= b@);
    v
}

/// Encodes a byte slice as a hexadecimal string.
pub fn to_string(b: &[u8]) -> (r: String)
    ensures
        r@ == ascii(hex_of(b@)),
{
    string_from_ascii(hex_bytes(b))
}

proof fn lemma_without_leading_zeroes(s: Seq<u8>, k: int)
    requires
        0 <= k <= s.len(),
        forall|j: int| 0 <= j < k ==> s[j] == 48,
        k < s.len() ==> s[k] != 48,
    ensures
        without_leading_zeroes(s) == s.skip(k),
    decreases k,
{
    if k > 0 {
        lemma_without_leading_zeroes(s.drop_first(), k - 1);
        assert(s.drop_first().skip(k - 1) =~= s.skip(k));
    } else {
        assert(s.skip(0) =~= s);
    }
}

/// Encodes an unsigned 64-bit value as hexadecimal text, as ASCII bytes.
pub fn to_vec_u64(i: u64, skip_leading_zeroes: bool) -> (s: Vec<u8>)
    ensures
        s@ == text_of_u64(i, skip_leading_zeroes),
        is_ascii(s@),
{
    let mut s: Vec<u8> = Vec::with_capacity(16);
    let ghost all = hex_of_u64(i);
    let ghost mut skipped: int = 0;
    let mut k: u32 = 0;
    while k < 16
        invariant
            k <= 16,
            all == hex_of_u64(i),
            0 <= skipped <= k,
            s@ == all.subrange(skipped, k as int),
            s@.len() == 0 ==> skipped == k,
            skip_leading_zeroes ==> forall|j: int| 0 <= j < skipped ==> all[j] == 48,
            skip_leading_zeroes && skipped < k ==> all[skipped] != 48,
            !skip_leading_zeroes ==> skipped == 0,
            is_ascii(s@),
        decreases 16 - k,
    {
        let shift: u64 = (60 - 4 * k) as u64;
        let ii: u64 = (i >> shift) & 0xf;
        assert(ii < 16) by (bit_vector)
            requires
                ii == (i >> shift) & 0xf,
        ;
        assert(ii == nibble(i, k as int));
        proof {
            lemma_hex_char_is_ascii(ii as int);
        }
        if ii != 0 || s.len() != 0 || !skip_leading_zeroes {
            s.push(hex_digit(ii as u8));
            assert(s@ =~= all.subrange(skipped, k + 1));
        } else {
            proof {
                skipped = skipped + 1;
            }
            assert(s@ =~= all.subrange(skipped, k + 1));
        }
        k = k + 1;
    }
    proof {
        if skip_leading_zeroes {
            lemma_without_leading_zeroes(all, skipped);
        }
        assert(all.subrange(skipped, 16) =~= all.skip(skipped));
        assert(all.skip(0) =~= all);
    }
    s
}

/// Encodes an unsigned 64-bit value as a hexadecimal string.
pub fn to_string_u64(i: u64, skip_leading_zeroes: bool) -> (r: String)
    ensures
        r@ == ascii(text_of_u64(i, skip_leading_zeroes)),
{
    string_from_ascii(to_vec_u64(i, skip_leading_zeroes))
}

fn digit_value(c: u8) -> (r: Option<u8>)
    ensures
        r == hex_value(c),
        r is Some ==> r->Some_0 < 16,
{
    if 48 <= c && c <= 57 {
        Some(c - 48)
    } else if 65 <= c && c <= 70 {
        Some(c - 55)
    } else if 97 <= c && c <= 102 {
        Some(c - 87)
    } else {
        None
    }
}

proof fn lemma_hex_digits_push(s: Seq<u8>, c: u8)
    ensures
        hex_digits(s.push(c)) == match hex_value(c) {
            Some(d) => hex_digits(s).push(d),
            None => hex_digits(s),
        },
        forall|j: int| 0 <= j < hex_digits(s).len() ==> hex_digits(s)[j] < 16,
    decreases s.len(),
{
    assert(s.push(c).drop_last() =~= s);
    if s.len() > 0 {
        lemma_hex_digits_push(s.drop_last(), s.last());
        assert(s.drop_last().push(s.last()) =~= s);
    }
}

proof fn lemma_be_value_push(p: Seq<u8>, byte: u8)
    ensures
        be_value(p.push(byte)) == ((be_value(p) % 0x100_0000_0000_0000) * 256 + byte) as u64,
{
    assert(p.push(byte).drop_last() =~= p);
}

/// Decodes hexadecimal text from bytes, passing over every character that
/// is no hexadecimal digit.
pub fn from_bytes(s: &[u8]) -> (b: Vec<u8>)
    ensures
        b@ == paired(hex_digits(s@)),
{
    let mut b: Vec<u8> = Vec::new();
    let mut high: u8 = 0;
    let mut have_high: bool = false;
    let mut i: usize = 0;
    while i < s.len()
        invariant
            i <= s@.len(),
            b@ == paired(hex_digits(s@.take(i as int))),
            have_high == (hex_digits(s@.take(i as int)).len() % 2 == 1),
            have_high ==> high == hex_digits(s@.take(i as int)).last(),
            high < 16,
        decreases s@.len() - i,
    {
        proof {
            lemma_hex_digits_push(s@.take(i as int), s@[i as int]);
            assert(s@.take(i as int).push(s@[i as int]) =~= s@.take(i + 1));
        }
        match digit_value(s[i]) {
            Some(d) => {
                if have_high {
                    b.push(high * 16 + d);
                    assert(b@ =~= paired(hex_digits(s@.take(i + 1))));
                } else {
                    high = d;
                    assert(b@ =~= paired(hex_digits(s@.take(i + 1))));
                }
                have_high = !have_high;
            },
            None => {},
        }
        i = i + 1;
    }
    assert(s@.take(s@.len() as int) =~= s@);
    b
}

/// Decodes a hexadecimal string, passing over every character that is no
/// hexadecimal digit.
pub fn from_string(s: &str) -> (b: Vec<u8>)
    ensures
        b@ == paired(hex_digits(s.spec_bytes())),
{
    from_bytes(s.as_bytes())
}

/// Decodes the number that hexadecimal text spells, from bytes. Digits count
/// two by two, a last digit without a partner is left out, and every
/// character that is no hexadecimal digit is passed over.
pub fn u64_from_bytes(s: &[u8]) -> (n: u64)
    ensures
        n == be_value(paired(hex_digits(s@))),
{
    let mut n: u64 = 0;
    let mut high: u8 = 0;
    let mut have_high: bool = false;
    let mut i: usize = 0;
    while i < s.len()
        invariant
            i <= s@.len(),
            n == be_value(paired(hex_digits(s@.take(i as int)))),
            have_high == (hex_digits(s@.take(i as int)).len() % 2 == 1),
            have_high ==> high == hex_digits(s@.take(i as int)).last(),
            high < 16,
        decreases s@.len() - i,
    {
        let ghost before = paired(hex_digits(s@.take(i as int)));
        proof {
            lemma_hex_digits_push(s@.take(i as int), s@[i as int]);
            assert(s@.take(i as int).push(s@[i as int]) =~= s@.take(i + 1));
        }
        match digit_value(s[i]) {
            Some(d) => {
                if have_high {
                    let byte: u8 = high * 16 + d;
                    proof {
                        assert(paired(hex_digits(s@.take(i + 1))) =~= before.push(byte));
                        lemma_be_value_push(before, byte);
                    }
                    n = (n % 0x100_0000_0000_0000) * 256 + (byte as u64);
                } else {
                    high = d;
                    assert(paired(hex_digits(s@.take(i + 1))) =~= before);
                }
                have_high = !have_high;
            },
            None => {},
        }
        i = i + 1;
    }
    assert(s@.take(s@.len() as int) =~= s@);
    n
}

/// Decodes the number that a hexadecimal string spells.
pub fn from_string_u64(s: &str) -> (n: u64)
    ensures
        n == be_value(paired(hex_digits(s.spec_bytes()))),
{
    u64_from_bytes(s.as_bytes())
}

/// Writes the hexadecimal text of `b` to the front of `dest` and returns its
/// length. The rest of `dest` is left as it was.
pub fn to_hex_bytes(b: &[u8], dest: &mut [u8]) -> (n: usize)
    requires
        old(dest)@.len() >= 2 * b@.len(),
    ensures
        n == 2 * b@.len(),
        final(dest)@.len() == old(dest)@.len(),
        final(dest)@.take(n as int) == hex_of(b@),
        final(dest)@.skip(n as int) == old(dest)@.skip(n as int),
{
    let mut j: usize = 0;
    let mut i: usize = 0;
    while i < b.len()
        invariant
            i <= b@.len(),
            j == 2 * i,
            dest@.len() == old(dest)@.len(),
            dest@.len() >= 2 * b@.len(),
            dest@.take(j as int) == hex_of(b@.take(i as int)),
            forall|k: int| j <= k < dest@.len() ==> dest@[k] == old(dest)@[k],
        decreases b@.len() - i,
    {
        let x: u8 = b[i];
        let ghost before = dest@;
        dest[j] = hex_digit(x / 16);
        dest[j + 1] = hex_digit(x % 16);
        proof {
            let now = dest@.take(j + 2);
            let want = hex_of(b@.take(i + 1));
            let had = hex_of(b@.take(i as int));
            assert forall|k: int| 0 <= k < now.len() implies #[trigger] now[k] == want[k] by {
                if k < j {
                    assert(before.take(j as int)[k] == had[k]);
                    assert(b@.take(i as int)[k / 2] == b@.take(i + 1)[k / 2]);
                }
            }
            assert(now =~= want);
        }
        j = j + 2;
        i = i + 1;
    }
    assert(b@.take(b@.len() as int) =~= b@);
    assert(dest@.skip(j as int) =~= old(dest)@.skip(j as int));
    j
}

} // verus!
