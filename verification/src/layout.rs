//! The on-disk layout of a vault, as a mathematical model.
//!
//! Layout of format version 1, all integers big-endian:
//!
//! ```text
//! header    magic "VLT" 0x00 | format version u32 | compatibility | kdf
//!           | framed salt | framed verifier
//! payload   framed nonce | framed tag | framed ciphertext
//!
//! compatibility   0x00                   accepted by every executable
//!                 0x01 version u32       accepted by that executable only
//! kdf             algorithm u8 | memory cost u32 | time cost u32 | lanes u32
//! framed x        length of x as u32 | x
//! ```
//!
//! The header is what the payload is authenticated against. An empty file
//! stands for a vault that has never been saved.

use vstd::prelude::*;
use crate::error::FormatError;
use crate::wire::{u32_be, framed, take_u8, take_u32, take_framed};
use crate::wire::{
    lemma_take_u32_of_encoding,
    lemma_take_u32_inverse,
    lemma_take_framed_of_encoding,
    lemma_take_framed_inverse,
};

verus! {

/// The only layout revision this crate reads and writes.
pub const FORMAT_VERSION: u32 = 1;

/// Which executables may open a vault.
#[derive(Clone, Copy, Debug, PartialEq, Eq, Structural)]
pub enum CompatibleVersion {
    /// Every executable version.
    Any,
    /// The executable of exactly this version.
    One(u32),
}

/// The key derivation function and its cost.
#[derive(Clone, Copy, Debug, PartialEq, Eq, Structural)]
pub struct KdfParams {
    /// Algorithm identifier; 1 is Argon2id.
    pub algorithm: u8,
    /// Memory in KiB.
    pub m_cost: u32,
    /// Number of passes.
    pub t_cost: u32,
    /// Number of lanes.
    pub p_cost: u32,
}

/// The metadata header of a stored vault.
pub struct Header {
    pub format_version: u32,
    pub compatible_version: CompatibleVersion,
    pub kdf: KdfParams,
    pub salt: Seq<u8>,
    pub verifier: Seq<u8>,
}

/// The encrypted part of a stored vault.
pub struct Sealed {
    pub nonce: Seq<u8>,
    pub tag: Seq<u8>,
    pub ciphertext: Seq<u8>,
}

/// What a vault file holds.
pub enum Container {
    /// Nothing yet: the file is absent or empty.
    Fresh,
    /// A header and the payload sealed under it.
    Stored(Header, Sealed),
}

/// The four bytes every stored vault begins with.
pub open spec fn magic() -> Seq<u8> {
    seq![0x56u8, 0x4Cu8, 0x54u8, 0x00u8]
}

impl Header {
    /// The header can be written in format version 1.
    pub open spec fn encodable(self) -> bool {
        &&& self.format_version == FORMAT_VERSION
        &&& self.salt.len() <= u32::MAX
        &&& self.verifier.len() <= u32::MAX
    }
}

impl Sealed {
    /// Each field is short enough for its length prefix.
    pub open spec fn encodable(self) -> bool {
        &&& self.nonce.len() <= u32::MAX
        &&& self.tag.len() <= u32::MAX
        &&& self.ciphertext.len() <= u32::MAX
    }
}

/// The bytes of the compatibility field.
pub open spec fn encode_compat(c: CompatibleVersion) -> Seq<u8> {
    match c {
        CompatibleVersion::Any => seq![0u8],
        CompatibleVersion::One(v) => seq![1u8] + u32_be(v),
    }
}

/// The bytes of the key derivation field.
pub open spec fn encode_kdf(k: KdfParams) -> Seq<u8> {
    seq![k.algorithm] + (u32_be(k.m_cost) + (u32_be(k.t_cost) + u32_be(k.p_cost)))
}

/// The bytes of a header; they double as the associated data of the payload.
pub open spec fn encode_header(h: Header) -> Seq<u8> {
    magic() + (u32_be(h.format_version) + (encode_compat(h.compatible_version) + (encode_kdf(h.kdf)
        + (framed(h.salt) + framed(h.verifier)))))
}

/// The bytes of a payload: nonce, tag and ciphertext, each framed.
pub open spec fn encode_sealed(p: Sealed) -> Seq<u8> {
    framed(p.nonce) + (framed(p.tag) + framed(p.ciphertext))
}

/// The file of a stored vault: header, then payload.
pub open spec fn encode_layout(h: Header, p: Sealed) -> Seq<u8> {
    encode_header(h) + encode_sealed(p)
}

/// What encoding yields: the file, or why there is none.
pub open spec fn encode_spec(h: Header, p: Sealed) -> Result<Seq<u8>, FormatError> {
    if h.format_version != FORMAT_VERSION {
        Err(FormatError::Corrupt)
    } else if !(h.encodable() && p.encodable()) {
        Err(FormatError::TooLarge)
    } else {
        Ok(encode_layout(h, p))
    }
}

/// Takes the magic from the front; fails on any other four bytes.
pub open spec fn take_magic(s: Seq<u8>) -> Option<Seq<u8>> {
    if s.len() >= 4 && s.take(4) == magic() {
        Some(s.skip(4))
    } else {
        None
    }
}

/// Takes the compatibility field from the front; fails on an unknown tag.
pub open spec fn take_compat(s: Seq<u8>) -> Option<(CompatibleVersion, Seq<u8>)> {
    match take_u8(s) {
        None => None,
        Some((t, rest)) => if t == 0 {
            Some((CompatibleVersion::Any, rest))
        } else if t == 1 {
            match take_u32(rest) {
                None => None,
                Some((v, tail)) => Some((CompatibleVersion::One(v), tail)),
            }
        } else {
            None
        },
    }
}

/// Takes the key derivation field from the front.
pub open spec fn take_kdf(s: Seq<u8>) -> Option<(KdfParams, Seq<u8>)> {
    match take_u8(s) {
        None => None,
        Some((algorithm, r1)) => match take_u32(r1) {
            None => None,
            Some((m_cost, r2)) => match take_u32(r2) {
                None => None,
                Some((t_cost, r3)) => match take_u32(r3) {
                    None => None,
                    Some((p_cost, r4)) => Some(
                        (KdfParams { algorithm, m_cost, t_cost, p_cost }, r4),
                    ),
                },
            },
        },
    }
}

/// Parses a header from the front; fails on a wrong magic, on a format
/// version other than 1, and wherever the buffer ends too early.
pub open spec fn take_header(s: Seq<u8>) -> Option<(Header, Seq<u8>)> {
    match take_magic(s) {
        None => None,
        Some(r1) => match take_u32(r1) {
            None => None,
            Some((format_version, r2)) => if format_version != FORMAT_VERSION {
                None
            } else {
                match take_compat(r2) {
                    None => None,
                    Some((compatible_version, r3)) => match take_kdf(r3) {
                        None => None,
                        Some((kdf, r4)) => match take_framed(r4) {
                            None => None,
                            Some((salt, r5)) => match take_framed(r5) {
                                None => None,
                                Some((verifier, r6)) => Some(
                                    (
                                        Header {
                                            format_version,
                                            compatible_version,
                                            kdf,
                                            salt,
                                            verifier,
                                        },
                                        r6,
                                    ),
                                ),
                            },
                        },
                    },
                }
            },
        },
    }
}

/// Takes a payload from the front.
pub open spec fn take_sealed(s: Seq<u8>) -> Option<(Sealed, Seq<u8>)> {
    match take_framed(s) {
        None => None,
        Some((nonce, r1)) => match take_framed(r1) {
            None => None,
            Some((tag, r2)) => match take_framed(r2) {
                None => None,
                Some((ciphertext, r3)) => Some((Sealed { nonce, tag, ciphertext }, r3)),
            },
        },
    }
}

/// What a file holds. An empty file is a fresh vault; anything else must be
/// exactly one header and one payload, with nothing left over.
pub open spec fn decode_spec(s: Seq<u8>) -> Result<Container, FormatError> {
    if s.len() == 0 {
        Ok(Container::Fresh)
    } else {
        match take_header(s) {
            None => Err(FormatError::Corrupt),
            Some((h, rest)) => match take_sealed(rest) {
                None => Err(FormatError::Corrupt),
                Some((p, tail)) => if tail.len() == 0 {
                    Ok(Container::Stored(h, p))
                } else {
                    Err(FormatError::Corrupt)
                },
            },
        }
    }
}

/// Concatenation may be regrouped.
pub proof fn lemma_regroup(a: Seq<u8>, b: Seq<u8>, c: Seq<u8>)
    ensures
        a + (b + c) == (a + b) + c,
{
    assert(a + (b + c) =~= (a + b) + c);
}

/// A compatibility field in front of anything is taken back whole.
pub proof fn lemma_take_compat_of_encoding(c: CompatibleVersion, rest: Seq<u8>)
    ensures
        take_compat(encode_compat(c) + rest) == Some((c, rest)),
{
    let s = encode_compat(c) + rest;
    match c {
        CompatibleVersion::Any => {
            assert(s.skip(1) =~= rest);
        },
        CompatibleVersion::One(v) => {
            assert(s.skip(1) =~= u32_be(v) + rest);
            lemma_take_u32_of_encoding(v, rest);
        },
    }
}

/// What `take_compat` took, written back in front of the rest, is the input.
pub proof fn lemma_take_compat_inverse(s: Seq<u8>)
    requires
        take_compat(s) is Some,
    ensures
        s == encode_compat(take_compat(s).unwrap().0) + take_compat(s).unwrap().1,
{
    let (c, rest) = take_compat(s).unwrap();
    match c {
        CompatibleVersion::Any => {
            assert(s =~= seq![0u8] + rest);
        },
        CompatibleVersion::One(v) => {
            lemma_take_u32_inverse(s.skip(1));
            lemma_regroup(seq![1u8], u32_be(v), rest);
            assert(s =~= seq![1u8] + s.skip(1));
        },
    }
}

/// A key derivation field in front of anything is taken back whole.
pub proof fn lemma_take_kdf_of_encoding(k: KdfParams, rest: Seq<u8>)
    ensures
        take_kdf(encode_kdf(k) + rest) == Some((k, rest)),
{
    let s = encode_kdf(k) + rest;
    let r1 = u32_be(k.m_cost) + (u32_be(k.t_cost) + (u32_be(k.p_cost) + rest));
    assert(s.skip(1) =~= r1);
    lemma_take_u32_of_encoding(k.m_cost, u32_be(k.t_cost) + (u32_be(k.p_cost) + rest));
    lemma_take_u32_of_encoding(k.t_cost, u32_be(k.p_cost) + rest);
    lemma_take_u32_of_encoding(k.p_cost, rest);
}

/// What `take_kdf` took, written back in front of the rest, is the input.
pub proof fn lemma_take_kdf_inverse(s: Seq<u8>)
    requires
        take_kdf(s) is Some,
    ensures
        s == encode_kdf(take_kdf(s).unwrap().0) + take_kdf(s).unwrap().1,
{
    let (k, rest) = take_kdf(s).unwrap();
    let r1 = s.skip(1);
    lemma_take_u32_inverse(r1);
    let r2 = take_u32(r1).unwrap().1;
    lemma_take_u32_inverse(r2);
    let r3 = take_u32(r2).unwrap().1;
    lemma_take_u32_inverse(r3);
    assert(s =~= seq![k.algorithm] + r1);
    assert(s =~= encode_kdf(k) + rest);
}

/// A header in front of anything is parsed back whole.
pub proof fn lemma_take_header_of_encoding(h: Header, rest: Seq<u8>)
    requires
        h.encodable(),
    ensures
        take_header(encode_header(h) + rest) == Some((h, rest)),
{
    let s = encode_header(h) + rest;
    let r5 = framed(h.verifier) + rest;
    let r4 = framed(h.salt) + r5;
    let r3 = encode_kdf(h.kdf) + r4;
    let r2 = encode_compat(h.compatible_version) + r3;
    let r1 = u32_be(h.format_version) + r2;
    assert(s =~= magic() + r1);
    assert(s.take(4) =~= magic());
    assert(s.skip(4) =~= r1);
    lemma_take_u32_of_encoding(h.format_version, r2);
    lemma_take_compat_of_encoding(h.compatible_version, r3);
    lemma_take_kdf_of_encoding(h.kdf, r4);
    lemma_take_framed_of_encoding(h.salt, r5);
    lemma_take_framed_of_encoding(h.verifier, rest);
}

/// Whatever `take_header` accepts is the encoding of what it returns,
/// followed by the rest.
pub proof fn lemma_take_header_inverse(s: Seq<u8>)
    requires
        take_header(s) is Some,
    ensures
        take_header(s).unwrap().0.encodable(),
        s == encode_header(take_header(s).unwrap().0) + take_header(s).unwrap().1,
{
    let (h, rest) = take_header(s).unwrap();
    let r1 = take_magic(s).unwrap();
    let r2 = take_u32(r1).unwrap().1;
    let r3 = take_compat(r2).unwrap().1;
    let r4 = take_kdf(r3).unwrap().1;
    let r5 = take_framed(r4).unwrap().1;
    lemma_take_framed_inverse(r5);
    let b5 = framed(h.verifier);
    lemma_take_framed_inverse(r4);
    let b4 = framed(h.salt) + b5;
    lemma_regroup(framed(h.salt), b5, rest);
    lemma_take_kdf_inverse(r3);
    let b3 = encode_kdf(h.kdf) + b4;
    lemma_regroup(encode_kdf(h.kdf), b4, rest);
    lemma_take_compat_inverse(r2);
    let b2 = encode_compat(h.compatible_version) + b3;
    lemma_regroup(encode_compat(h.compatible_version), b3, rest);
    lemma_take_u32_inverse(r1);
    let b1 = u32_be(h.format_version) + b2;
    lemma_regroup(u32_be(h.format_version), b2, rest);
    assert(s == magic() + r1) by {
        assert(s =~= s.take(4) + s.skip(4));
    }
    lemma_regroup(magic(), b1, rest);
}

/// A payload in front of anything is taken back whole.
pub proof fn lemma_take_sealed_of_encoding(p: Sealed, rest: Seq<u8>)
    requires
        p.encodable(),
    ensures
        take_sealed(encode_sealed(p) + rest) == Some((p, rest)),
{
    let s = encode_sealed(p) + rest;
    let r2 = framed(p.ciphertext) + rest;
    let r1 = framed(p.tag) + r2;
    assert(s =~= framed(p.nonce) + r1);
    lemma_take_framed_of_encoding(p.nonce, r1);
    lemma_take_framed_of_encoding(p.tag, r2);
    lemma_take_framed_of_encoding(p.ciphertext, rest);
}

/// Whatever `take_sealed` accepts is the encoding of what it returns,
/// followed by the rest.
pub proof fn lemma_take_sealed_inverse(s: Seq<u8>)
    requires
        take_sealed(s) is Some,
    ensures
        take_sealed(s).unwrap().0.encodable(),
        s == encode_sealed(take_sealed(s).unwrap().0) + take_sealed(s).unwrap().1,
{
    let (p, rest) = take_sealed(s).unwrap();
    let r1 = take_framed(s).unwrap().1;
    let r2 = take_framed(r1).unwrap().1;
    lemma_take_framed_inverse(s);
    lemma_take_framed_inverse(r1);
    lemma_take_framed_inverse(r2);
    assert(s =~= encode_sealed(p) + rest);
}

/// Decoding inverts encoding: every file that encoding produces decodes to
/// the header and payload it was made from.
pub proof fn lemma_decode_encode(h: Header, p: Sealed)
    requires
        encode_spec(h, p) is Ok,
    ensures
        decode_spec(encode_spec(h, p).unwrap()) == Ok::<Container, FormatError>(
            Container::Stored(h, p),
        ),
{
    let s = encode_layout(h, p);
    lemma_take_header_of_encoding(h, encode_sealed(p));
    assert(encode_sealed(p) =~= encode_sealed(p) + Seq::<u8>::empty());
    lemma_take_sealed_of_encoding(p, Seq::<u8>::empty());
    assert(magic().len() == 4);
}

/// Encoding inverts decoding, byte for byte: a file that decodes to a stored
/// vault is exactly the encoding of that header and payload.
pub proof fn lemma_encode_decode(s: Seq<u8>)
    requires
        decode_spec(s) matches Ok(Container::Stored(_, _)),
    ensures
        decode_spec(s) matches Ok(Container::Stored(h, p)) && encode_spec(h, p) == Ok::<
            Seq<u8>,
            FormatError,
        >(s),
{
    lemma_take_header_inverse(s);
    let (h, rest) = take_header(s).unwrap();
    lemma_take_sealed_inverse(rest);
    let (p, tail) = take_sealed(rest).unwrap();
    assert(rest =~= encode_sealed(p));
}

/// Two headers with the same bytes are the same header, so the associated
/// data of a payload determines every metadata field.
pub proof fn lemma_header_encoding_injective(a: Header, b: Header)
    requires
        a.encodable(),
        b.encodable(),
        encode_header(a) == encode_header(b),
    ensures
        a == b,
{
    let e = Seq::<u8>::empty();
    lemma_take_header_of_encoding(a, e);
    lemma_take_header_of_encoding(b, e);
}

} // verus!
