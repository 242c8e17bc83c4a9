//! Unsigned integers in a code of variable length.
//!
//! A number is written seven bits at a time, lowest bits first. Every byte
//! but the last has its top bit clear; the last has it set.

use crate::stream::{wrote, ByteSink, ByteSource, StreamError};
use vstd::prelude::*;

verus! {

/// The most bytes that the code of a 64-bit number takes.
pub const VARINT_MAX_SIZE_BYTES: usize = 10;

/// The code of `v`.
pub open spec fn encoding(v: u64) -> Seq<u8>
    decreases v,
{
    if v > 0x7f {
        seq![(v % 128) as u8] + encoding(v / 128)
    } else {
        seq![(v + 128) as u8]
    }
}

/// Whether the byte at index `n` is the first of `b` with its top bit set:
/// the byte that ends the code at the front of `b`.
pub open spec fn terminator_at(b: Seq<u8>, n: int) -> bool {
    &&& 0 <= n < b.len()
    &&& b[n] > 0x7f
    &&& forall|j: int| 0 <= j < n ==> b[j] <= 0x7f
}

/// What the byte at index `i` of a code adds to the number: its low seven
/// bits, moved up by seven places for each byte before it. Places are counted
/// modulo 64, and bits moved past the top are lost.
pub open spec fn chunk(byte: u8, i: nat) -> u64 {
    ((byte & 0x7f) as u64) << (((7 * i) % 64) as u64)
}

/// The number that the bytes `b` stand for: all their chunks together.
pub open spec fn value(b: Seq<u8>) -> u64
    decreases b.len(),
{
    if b.len() == 0 {
        0
    } else {
        value(b.drop_last()) | chunk(b.last(), (b.len() - 1) as nat)
    }
}

spec fn pow128(k: nat) -> nat
    decreases k,
{
    if k == 0 {
        1
    } else {
        128 * pow128((k - 1) as nat)
    }
}

proof fn lemma_encoding_len(v: u64, k: nat)
    requires
        k >= 1,
        v < pow128(k),
    ensures
        1 <= encoding(v).len() <= k,
    decreases v,
{
    if v > 0x7f {
        assert(k >= 2) by {
            reveal_with_fuel(pow128, 2);
        }
        lemma_encoding_len(v / 128, (k - 1) as nat);
    }
}

/// The code of a 64-bit number takes between one and ten bytes.
pub proof fn lemma_encoding_fits(v: u64)
    ensures
        1 <= encoding(v).len() <= VARINT_MAX_SIZE_BYTES,
{
    assert(pow128(10) == 0x40_0000_0000_0000_0000) by {
        reveal_with_fuel(pow128, 11);
    }
    lemma_encoding_len(v, 10);
}

/// The last byte of a code has its top bit set, and no byte before it has.
pub proof fn lemma_encoding_ends(v: u64)
    ensures
        terminator_at(encoding(v), encoding(v).len() - 1),
    decreases v,
{
    if v > 0x7f {
        lemma_encoding_ends(v / 128);
        let rest = encoding(v / 128);
        let e = encoding(v);
        assert forall|j: int| 0 <= j < e.len() - 1 implies e[j] <= 0x7f by {
            if j > 0 {
                assert(e[j] == rest[j - 1]);
            }
        }
        assert(e[e.len() - 1] == rest[rest.len() - 1]);
    }
}

proof fn lemma_value_push(p: Seq<u8>, byte: u8)
    ensures
        value(p.push(byte)) == value(p) | chunk(byte, p.len()),
{
    assert(p.push(byte).drop_last() =~= p);
}

proof fn lemma_value_of_code(p: Seq<u8>, v: u64)
    requires
        7 * p.len() <= 63,
        (v << ((7 * p.len()) as u64)) >> ((7 * p.len()) as u64) == v,
    ensures
        value(p + encoding(v)) == value(p) | (v << ((7 * p.len()) as u64)),
    decreases v,
{
    let s: u64 = (7 * p.len()) as u64;
    let a: u64 = value(p);
    if v > 0x7f {
        let c: u8 = (v % 128) as u8;
        let lo: u64 = (c & 0x7f) as u64;
        let rest: u64 = v / 128;
        let t: u64 = (s + 7) as u64;
        assert(s <= 56) by {
            assert(s > 56 && s <= 63 && (v << s) >> s == v ==> v <= 0x7f) by (bit_vector);
        }
        assert((rest << t) >> t == rest) by (bit_vector)
            requires
                rest == v / 128,
                t == s + 7,
                s <= 56,
                (v << s) >> s == v,
        ;
        assert(lo == v % 128) by (bit_vector)
            requires
                lo == (c & 0x7f) as u64,
                c as u64 == v % 128,
        ;
        lemma_value_push(p, c);
        lemma_value_of_code(p.push(c), rest);
        assert(p + encoding(v) =~= p.push(c) + encoding(rest));
        assert(chunk(c, p.len()) == lo << s);
        assert((a | (lo << s)) | (rest << t) == a | (v << s)) by (bit_vector)
            requires
                lo == v % 128,
                rest == v / 128,
                t == s + 7,
                s <= 56,
        ;
    } else {
        let c: u8 = (v + 128) as u8;
        let lo: u64 = (c & 0x7f) as u64;
        assert(p + encoding(v) =~= p.push(c));
        lemma_value_push(p, c);
        assert(chunk(c, p.len()) == lo << s);
        assert(lo == v) by (bit_vector)
            requires
                lo == (c & 0x7f) as u64,
                v <= 0x7f,
                c as u64 == v + 128,
        ;
    }
}

/// Round trip: the bytes of a code stand for the number that was encoded.
pub proof fn lemma_value_of_encoding(v: u64)
    ensures
        value(encoding(v)) == v,
{
    let empty = Seq::<u8>::empty();
    assert((v << 0u64) >> 0u64 == v) by (bit_vector);
    lemma_value_of_code(empty, v);
    assert(empty + encoding(v) =~= encoding(v));
    assert(value(empty) == 0);
    assert(0u64 | (v << 0u64) == v) by (bit_vector);
}

/// Round trip through the decoder: where the code of `v` stands at the front
/// of some bytes, the byte that ends it is the first with its top bit set,
/// and the bytes up to it stand for `v`. So [`decode`] and [`read`] give back
/// `v` and the length of its code, whatever follows.
pub proof fn lemma_round_trip(v: u64, rest: Seq<u8>)
    ensures
        terminator_at(encoding(v) + rest, encoding(v).len() - 1),
        encoding(v).len() <= VARINT_MAX_SIZE_BYTES,
        value((encoding(v) + rest).take(encoding(v).len() as int)) == v,
{
    lemma_encoding_fits(v);
    lemma_encoding_ends(v);
    lemma_value_of_encoding(v);
    assert((encoding(v) + rest).take(encoding(v).len() as int) =~= encoding(v));
}

/// Writes the code of `v` to the front of `b` and returns its length. The
/// rest of `b` is left as it was.
pub fn encode(b: &mut [u8], v: u64) -> (n: usize)
    requires
        old(b)@.len() >= encoding(v).len(),
    ensures
        n == encoding(v).len(),
        1 <= n <= VARINT_MAX_SIZE_BYTES,
        final(b)@.len() == old(b)@.len(),
        final(b)@.take(n as int) == encoding(v),
        final(b)@.skip(n as int) == old(b)@.skip(n as int),
{
    proof {
        lemma_encoding_fits(v);
    }
    let mut rest: u64 = v;
    let mut i: usize = 0;
    while rest > 0x7f
        invariant
            b@.len() == old(b)@.len(),
            i + encoding(rest).len() == encoding(v).len(),
            encoding(v).len() <= b@.len(),
            encoding(v).len() <= 10,
            b@.take(i as int) + encoding(rest) == encoding(v),
            b@.skip(i as int) == old(b)@.skip(i as int),
        decreases rest,
    {
        let ghost before = b@;
        b[i] = (rest % 128) as u8;
        proof {
            assert(b@.take(i + 1) + encoding(rest / 128) =~= before.take(i as int) + encoding(
                rest,
            ));
            let now = b@.skip(i + 1);
            let was = old(b)@.skip(i + 1);
            assert forall|k: int| 0 <= k < now.len() implies #[trigger] now[k] == was[k] by {
                assert(before.skip(i as int)[k + 1] == old(b)@.skip(i as int)[k + 1]);
            }
            assert(b@.skip(i + 1) =~= old(b)@.skip(i + 1));
        }
        i = i + 1;
        rest = rest / 128;
    }
    let ghost before = b@;
    b[i] = (rest + 128) as u8;
    proof {
        assert(b@.take(i + 1) =~= before.take(i as int) + encoding(rest));
        let now = b@.skip(i + 1);
            let was = old(b)@.skip(i + 1);
            assert forall|k: int| 0 <= k < now.len() implies #[trigger] now[k] == was[k] by {
            assert(before.skip(i as int)[k + 1] == old(b)@.skip(i as int)[k + 1]);
        }
        assert(b@.skip(i + 1) =~= old(b)@.skip(i + 1));
    }
    i + 1
}

/// Writes the code of `v` to `w`.
pub fn write<W: ByteSink>(w: &mut W, v: u64) -> (r: Result<(), StreamError>)
    requires
        old(w).sink_wf(),
    ensures
        final(w).sink_wf(),
        wrote(old(w), final(w), encoding(v), r),
{
    proof {
        lemma_encoding_fits(v);
    }
    let mut b: [u8; 10] = [0u8; 10];
    let i: usize = encode(&mut b, v);
    let code: &[u8] = vstd::slice::slice_subrange(b.as_slice(), 0, i);
    assert(code@ =~= encoding(v));
    w.write_all(code)
}

proof fn lemma_next_place(i: int)
    requires
        0 <= i,
    ensures
        ((7 * i) % 64 + 7) % 64 == (7 * (i + 1)) % 64,
{
    vstd::arithmetic::div_mod::lemma_add_mod_noop(7 * i, 7, 64);
}

proof fn lemma_step(all: Seq<u8>, i: int, pos: u64, v: u64)
    requires
        0 <= i < all.len(),
        pos == (7 * i) % 64,
        v == value(all.take(i)),
    ensures
        v | (((all[i] & 0x7f) as u64) << pos) == value(all.take(i + 1)),
{
    lemma_value_push(all.take(i), all[i]);
    assert(all.take(i).push(all[i]) =~= all.take(i + 1));
    assert(all.take(i).len() == i);
    assert(chunk(all[i], i as nat) == ((all[i] & 0x7f) as u64) << pos);
}

/// Reads the code at the front of `b`, which ends within the first ten
/// bytes or not at all. Returns the number and the length of the code.
pub fn decode(b: &[u8]) -> (r: Option<(u64, usize)>)
    ensures
        r is Some <==> exists|n: int| n < VARINT_MAX_SIZE_BYTES && terminator_at(b@, n),
        r matches Some((v, len)) ==> {
            &&& 1 <= len <= VARINT_MAX_SIZE_BYTES
            &&& terminator_at(b@, len - 1)
            &&& v == value(b@.take(len as int))
        },
{
    let mut v: u64 = 0;
    let mut pos: u64 = 0;
    let mut i: usize = 0;
    while i < b.len() && i < VARINT_MAX_SIZE_BYTES
        invariant
            i <= b@.len(),
            i <= 10,
            pos == 7 * i,
            v == value(b@.take(i as int)),
            forall|j: int| 0 <= j < i ==> b@[j] <= 0x7f,
        decreases b@.len() - i,
    {
        let byte: u8 = b[i];
        proof {
            lemma_step(b@, i as int, pos, v);
            lemma_next_place(i as int);
        }
        v = v | (((byte & 0x7f) as u64) << pos);
        i = i + 1;
        if byte > 0x7f {
            assert(terminator_at(b@, i - 1));
            return Some((v, i));
        }
        pos = pos + 7;
    }
    assert forall|n: int| n < VARINT_MAX_SIZE_BYTES && terminator_at(b@, n) implies false by {
        assert(b@[n] <= 0x7f);
    }
    None
}

/// Reads a code from `r`, byte by byte up to the byte that ends it. Returns
/// the number and the length of the code.
#[verifier::rlimit(40)]
pub fn read<R: ByteSource>(r: &mut R) -> (res: Result<(u64, usize), StreamError>)
    requires
        old(r).source_wf(),
    ensures
        final(r).source_wf(),
        res is Ok <==> exists|n: int| terminator_at(old(r).source_bytes(), n),
        res matches Ok((v, len)) ==> {
            &&& terminator_at(old(r).source_bytes(), len - 1)
            &&& v == value(old(r).source_bytes().take(len as int))
            &&& final(r).source_bytes() == old(r).source_bytes().skip(len as int)
        },
{
    let ghost all = r.source_bytes();
    proof {
        r.lemma_source_is_bounded();
    }
    let mut v: u64 = 0;
    let mut pos: u64 = 0;
    let mut i: usize = 0;
    loop
        invariant
            r.source_wf(),
            all == old(r).source_bytes(),
            all.len() <= usize::MAX,
            i <= all.len(),
            r.source_bytes() == all.skip(i as int),
            pos == (7 * i) % 64,
            v == value(all.take(i as int)),
            forall|j: int| 0 <= j < i ==> all[j] <= 0x7f,
        decreases all.len() - i,
    {
        match r.read_exact(1) {
            Err(e) => {
                assert forall|n: int| terminator_at(all, n) implies false by {
                    assert(all[n] <= 0x7f);
                }
                return Err(e);
            },
            Ok(one) => {
                let byte: u8 = one[0];
                proof {
                    assert(one@ == all.skip(i as int).take(1));
                    assert(byte == all[i as int]);
                    assert(all.skip(i as int).skip(1) =~= all.skip(i + 1));
                    lemma_step(all, i as int, pos, v);
                    lemma_next_place(i as int);
                }
                v = v | (((byte & 0x7f) as u64) << pos);
                i = i + 1;
                if byte > 0x7f {
                    assert(terminator_at(all, i - 1));
                    return Ok((v, i));
                }
                pos = (pos + 7) % 64;
            },
        }
    }
}

/// A code that is read one byte at a time, for a reader that gets its bytes
/// from somewhere else.
pub struct Decoder {
    acc: u64,
    pos: u64,
    count: usize,
    fed: Ghost<Seq<u8>>,
}

impl View for Decoder {
    type V = Seq<u8>;

    /// The bytes fed so far.
    closed spec fn view(&self) -> Seq<u8> {
        self.fed@
    }
}

impl Decoder {
    /// What holds of a decoder that waits for a byte: no byte fed so far
    /// ended the code.
    pub closed spec fn wf(&self) -> bool {
        &&& self.count == self.fed@.len()
        &&& self.pos == (7 * self.count) % 64
        &&& self.acc == value(self.fed@)
        &&& forall|j: int| 0 <= j < self.fed@.len() ==> self.fed@[j] <= 0x7f
    }

    /// A decoder that no byte was fed to.
    pub fn new() -> (r: Decoder)
        ensures
            r.wf(),
            r@ == Seq::<u8>::empty(),
    {
        Decoder { acc: 0, pos: 0, count: 0, fed: Ghost(Seq::empty()) }
    }

    /// The number of bytes fed so far.
    pub fn count(&self) -> (r: usize)
        requires
            self.wf(),
        ensures
            r == self@.len(),
    {
        self.count
    }

    /// Takes the next byte of the code. With the byte that ends the code
    /// comes the result: the number that the bytes fed stand for, and how
    /// many they are.
    pub fn feed(&mut self, byte: u8) -> (r: Option<(u64, usize)>)
        requires
            old(self).wf(),
            old(self)@.len() < usize::MAX,
        ensures
            final(self)@ == old(self)@.push(byte),
            r is Some <==> byte > 0x7f,
            r is Some ==> r == Some((value(final(self)@), final(self)@.len() as usize))
                && terminator_at(final(self)@, final(self)@.len() - 1),
            r is None ==> final(self).wf(),
    {
        proof {
            let all = self.fed@.push(byte);
            lemma_value_push(self.fed@, byte);
            lemma_next_place(self.count as int);
            assert(chunk(byte, self.count as nat) == ((byte & 0x7f) as u64) << self.pos);
        }
        self.acc = self.acc | (((byte & 0x7f) as u64) << self.pos);
        self.count = self.count + 1;
        self.pos = (self.pos + 7) % 64;
        self.fed = Ghost(self.fed@.push(byte));
        if byte > 0x7f {
            Some((self.acc, self.count))
        } else {
            None
        }
    }
}

} // verus!
