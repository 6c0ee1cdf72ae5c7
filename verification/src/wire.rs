//! Byte-level building blocks of the container layout: big-endian integers
//! and length-prefixed byte strings, each with a parser that consumes from the
//! front of a buffer.

use vstd::prelude::*;

verus! {

/// A half-open range of positions in a buffer.
#[derive(Clone, Copy, Debug, PartialEq, Eq, Structural)]
pub struct Span {
    pub start: usize,
    pub end: usize,
}

impl Span {
    /// The span lies inside a buffer of `len` bytes.
    pub open spec fn fits(self, len: nat) -> bool {
        self.start <= self.end <= len
    }

    /// The bytes of `data` that the span covers.
    pub open spec fn of(self, data: Seq<u8>) -> Seq<u8> {
        data.subrange(self.start as int, self.end as int)
    }

    /// The covered bytes, borrowed from `data`.
    pub fn slice<'a>(&self, data: &'a [u8]) -> (out: &'a [u8])
        requires
            self.fits(data@.len()),
        ensures
            out@ == self.of(data@),
    {
        vstd::slice::slice_subrange(data, self.start, self.end)
    }

    /// The covered bytes, copied.
    pub fn copy(&self, data: &[u8]) -> (out: Vec<u8>)
        requires
            self.fits(data@.len()),
        ensures
            out@ == self.of(data@),
    {
        vstd::slice::slice_to_vec(self.slice(data))
    }
}

/// The four bytes of `n`, most significant first.
#[verifier::opaque]
pub open spec fn u32_be(n: u32) -> Seq<u8> {
    seq![
        (n / 0x100_0000) as u8,
        (n / 0x1_0000 % 0x100) as u8,
        (n / 0x100 % 0x100) as u8,
        (n % 0x100) as u8,
    ]
}

/// The number that four bytes spell, most significant first.
#[verifier::opaque]
pub open spec fn be_u32(b: Seq<u8>) -> u32
    recommends
        b.len() == 4,
{
    (b[0] as int * 0x100_0000 + b[1] as int * 0x1_0000 + b[2] as int * 0x100 + b[3] as int) as u32
}

/// A byte string preceded by its length as a big-endian `u32`.
pub open spec fn framed(b: Seq<u8>) -> Seq<u8>
    recommends
        b.len() <= u32::MAX,
{
    u32_be(b.len() as u32) + b
}

/// What is left of a buffer from `pos` on; nothing beyond its end.
pub open spec fn tail(data: Seq<u8>, pos: int) -> Seq<u8> {
    if 0 <= pos <= data.len() {
        data.skip(pos)
    } else {
        Seq::<u8>::empty()
    }
}

/// Takes one byte from the front.
pub open spec fn take_u8(s: Seq<u8>) -> Option<(u8, Seq<u8>)> {
    if s.len() < 1 {
        None
    } else {
        Some((s[0], s.skip(1)))
    }
}

/// Takes a big-endian `u32` from the front.
pub open spec fn take_u32(s: Seq<u8>) -> Option<(u32, Seq<u8>)> {
    if s.len() < 4 {
        None
    } else {
        Some((be_u32(s.take(4)), s.skip(4)))
    }
}

/// Takes a length-prefixed byte string from the front; fails when the length
/// field promises more than the buffer holds.
pub open spec fn take_framed(s: Seq<u8>) -> Option<(Seq<u8>, Seq<u8>)> {
    match take_u32(s) {
        None => None,
        Some((n, rest)) => if rest.len() < n {
            None
        } else {
            Some((rest.take(n as int), rest.skip(n as int)))
        },
    }
}

/// Reading back the bytes of a number gives the number.
pub proof fn lemma_u32_round_trip(n: u32)
    ensures
        u32_be(n).len() == 4,
        be_u32(u32_be(n)) == n,
{
    reveal(u32_be);
    reveal(be_u32);
}

/// Four digits in base 256 are recovered from the number they spell.
proof fn lemma_base_256_digits(b0: int, b1: int, b2: int, b3: int)
    requires
        0 <= b0 < 0x100,
        0 <= b1 < 0x100,
        0 <= b2 < 0x100,
        0 <= b3 < 0x100,
    ensures
        ({
            let n = b0 * 0x100_0000 + b1 * 0x1_0000 + b2 * 0x100 + b3;
            &&& 0 <= n <= u32::MAX
            &&& n / 0x100_0000 == b0
            &&& n / 0x1_0000 % 0x100 == b1
            &&& n / 0x100 % 0x100 == b2
            &&& n % 0x100 == b3
        }),
{
    let n = b0 * 0x100_0000 + b1 * 0x1_0000 + b2 * 0x100 + b3;
    let q2 = b0 * 0x100 + b1;
    let q1 = q2 * 0x100 + b2;
    assert(n == q1 * 0x100 + b3);
    assert(n / 0x100 == q1 && n % 0x100 == b3);
    assert(q1 / 0x100 == q2 && q1 % 0x100 == b2);
    assert(n == q2 * 0x1_0000 + (b2 * 0x100 + b3));
    assert(n / 0x1_0000 == q2);
    assert(q2 / 0x100 == b0 && q2 % 0x100 == b1);
    assert(n == b0 * 0x100_0000 + (b1 * 0x1_0000 + b2 * 0x100 + b3));
    assert(n / 0x100_0000 == b0);
}

/// Writing the number that four bytes spell gives the four bytes.
pub proof fn lemma_u32_bytes_round_trip(b: Seq<u8>)
    requires
        b.len() == 4,
    ensures
        u32_be(be_u32(b)) == b,
{
    reveal(u32_be);
    reveal(be_u32);
    lemma_base_256_digits(b[0] as int, b[1] as int, b[2] as int, b[3] as int);
    assert(u32_be(be_u32(b)) =~= b);
}

/// A number at the front of a buffer is taken whole, leaving what follows.
pub proof fn lemma_take_u32_of_encoding(n: u32, rest: Seq<u8>)
    ensures
        take_u32(u32_be(n) + rest) == Some((n, rest)),
{
    let s = u32_be(n) + rest;
    lemma_u32_round_trip(n);
    assert(s.take(4) =~= u32_be(n));
    assert(s.skip(4) =~= rest);
}

/// What `take_u32` took, written back in front of the rest, is the input.
pub proof fn lemma_take_u32_inverse(s: Seq<u8>)
    requires
        take_u32(s) is Some,
    ensures
        s == u32_be(take_u32(s).unwrap().0) + take_u32(s).unwrap().1,
{
    lemma_u32_bytes_round_trip(s.take(4));
    assert(s =~= s.take(4) + s.skip(4));
}

/// A framed string at the front of a buffer is taken whole.
pub proof fn lemma_take_framed_of_encoding(b: Seq<u8>, rest: Seq<u8>)
    requires
        b.len() <= u32::MAX,
    ensures
        take_framed(framed(b) + rest) == Some((b, rest)),
{
    let n = b.len() as u32;
    lemma_u32_round_trip(n);
    assert(framed(b) + rest =~= u32_be(n) + (b + rest));
    lemma_take_u32_of_encoding(n, b + rest);
    assert((b + rest).take(n as int) =~= b);
    assert((b + rest).skip(n as int) =~= rest);
}

/// What `take_framed` took, framed again in front of the rest, is the input.
pub proof fn lemma_take_framed_inverse(s: Seq<u8>)
    requires
        take_framed(s) is Some,
    ensures
        take_framed(s).unwrap().0.len() <= u32::MAX,
        s == framed(take_framed(s).unwrap().0) + take_framed(s).unwrap().1,
{
    lemma_take_u32_inverse(s);
    let (n, rest) = take_u32(s).unwrap();
    let (b, tail) = take_framed(s).unwrap();
    assert(rest =~= b + tail);
    assert(s =~= framed(b) + tail);
}

/// Appends the four bytes of `n`.
pub fn put_u32(out: &mut Vec<u8>, n: u32)
    ensures
        final(out)@ == old(out)@ + u32_be(n),
{
    proof {
        reveal(u32_be);
    }
    out.push((n / 0x100_0000) as u8);
    out.push((n / 0x1_0000 % 0x100) as u8);
    out.push((n / 0x100 % 0x100) as u8);
    out.push((n % 0x100) as u8);
    assert(out@ =~= old(out)@ + u32_be(n));
}

/// Appends `bytes` behind their length; refuses a string longer than a
/// `u32` can count and then leaves `out` as it was.
pub fn put_framed(out: &mut Vec<u8>, bytes: &[u8]) -> (ok: bool)
    ensures
        ok == (bytes@.len() <= u32::MAX),
        ok ==> final(out)@ == old(out)@ + framed(bytes@),
        !ok ==> final(out)@ == old(out)@,
{
    if bytes.len() > 0xFFFF_FFFF {
        return false;
    }
    put_u32(out, bytes.len() as u32);
    out.extend_from_slice(bytes);
    assert(out@ =~= old(out)@ + framed(bytes@));
    true
}

/// Reads one byte at `pos`.
pub fn read_u8(data: &[u8], pos: usize) -> (r: Option<(u8, usize)>)
    ensures
        match take_u8(tail(data@, pos as int)) {
            None => r is None,
            Some((b, rest)) => r matches Some((got, next)) && got == b && next == pos + 1
                && next <= data@.len() && rest == data@.skip(next as int),
        },
{
    if pos > data.len() || data.len() - pos < 1 {
        return None;
    }
    assert(data@.skip(pos as int).skip(1) =~= data@.skip(pos + 1));
    Some((data[pos], pos + 1))
}

/// Reads a big-endian `u32` at `pos`.
pub fn read_u32(data: &[u8], pos: usize) -> (r: Option<(u32, usize)>)
    ensures
        match take_u32(tail(data@, pos as int)) {
            None => r is None,
            Some((n, rest)) => r matches Some((got, next)) && got == n && next == pos + 4
                && next <= data@.len() && rest == data@.skip(next as int),
        },
{
    if pos > data.len() || data.len() - pos < 4 {
        return None;
    }
    proof {
        reveal(be_u32);
    }
    let b0: u32 = data[pos] as u32;
    let b1: u32 = data[pos + 1] as u32;
    let b2: u32 = data[pos + 2] as u32;
    let b3: u32 = data[pos + 3] as u32;
    assert(data@.skip(pos as int).skip(4) =~= data@.skip(pos + 4));
    Some((b0 * 0x100_0000 + b1 * 0x1_0000 + b2 * 0x100 + b3, pos + 4))
}

/// Reads a length-prefixed byte string at `pos`, as the span of its content.
pub fn read_framed(data: &[u8], pos: usize) -> (r: Option<(Span, usize)>)
    ensures
        match take_framed(tail(data@, pos as int)) {
            None => r is None,
            Some((b, rest)) => r matches Some((span, next)) && span.fits(data@.len())
                && span.of(data@) == b && span.end == next && span.start == pos + 4
                && rest == data@.skip(next as int),
        },
{
    match read_u32(data, pos) {
        None => None,
        Some((n, start)) => {
            if data.len() - start < n as usize {
                return None;
            }
            let end: usize = start + n as usize;
            assert(data@.skip(pos as int).skip(4).take(n as int) =~= data@.subrange(
                start as int,
                end as int,
            ));
            assert(data@.skip(pos as int).skip(4).skip(n as int) =~= data@.skip(end as int));
            Some((Span { start, end }, end))
        },
    }
}

} // verus!
