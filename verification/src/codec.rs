//! Framing of the vault file: from bytes to a parsed view and back. No
//! cryptography happens here.

use vstd::prelude::*;
use crate::error::FormatError;
use crate::layout::{CompatibleVersion, Container, Header, KdfParams, Sealed, FORMAT_VERSION};
use crate::layout::{
    decode_spec,
    encode_compat,
    encode_header,
    encode_kdf,
    encode_sealed,
    encode_spec,
    magic,
    take_compat,
    take_header,
    take_kdf,
    take_magic,
    take_sealed,
};
use crate::layout::lemma_take_header_inverse;
use crate::wire::{put_framed, put_u32, read_framed, read_u32, read_u8, Span};

verus! {

/// The metadata of a vault, owning its bytes.
#[derive(Debug, PartialEq, Eq)]
pub struct Metadata {
    pub format_version: u32,
    pub compatible_version: CompatibleVersion,
    pub kdf: KdfParams,
    pub salt: Vec<u8>,
    pub verifier: Vec<u8>,
}

impl View for Metadata {
    type V = Header;

    open spec fn view(&self) -> Header {
        Header {
            format_version: self.format_version,
            compatible_version: self.compatible_version,
            kdf: self.kdf,
            salt: self.salt@,
            verifier: self.verifier@,
        }
    }
}

/// Nonce, tag and ciphertext of a sealed record set, owning their bytes.
#[derive(Debug, PartialEq, Eq)]
pub struct EncryptedPayload {
    pub nonce: Vec<u8>,
    pub tag: Vec<u8>,
    pub ciphertext: Vec<u8>,
}

impl View for EncryptedPayload {
    type V = Sealed;

    open spec fn view(&self) -> Sealed {
        Sealed { nonce: self.nonce@, tag: self.tag@, ciphertext: self.ciphertext@ }
    }
}

/// Where the header fields of a stored vault lie in the file.
#[derive(Clone, Copy, Debug, PartialEq, Eq, Structural)]
pub struct RawHeader {
    pub format_version: u32,
    pub kdf: KdfParams,
    pub salt: Span,
    /// The verifier: what the password is recognised by.
    pub password_hash: Span,
    /// One past the last header byte: the header is the file up to here.
    pub end: usize,
}

/// The parsed, not yet decrypted view of a vault file's header. It holds
/// positions in the file buffer instead of copies of its bytes.
#[derive(Clone, Copy, Debug, PartialEq, Eq, Structural)]
pub struct RawMetadata {
    pub compatible_version: CompatibleVersion,
    /// `None` while there is no metadata yet: the vault was never saved.
    pub stored: Option<RawHeader>,
}

/// Where nonce, tag and ciphertext lie in the file.
#[derive(Clone, Copy, Debug, PartialEq, Eq, Structural)]
pub struct RawPayload {
    pub nonce: Span,
    /// The tag that authenticates the ciphertext and the metadata.
    pub metahash: Span,
    pub ciphertext: Span,
}

impl RawPayload {
    /// Every span lies inside `data`.
    pub open spec fn fits(self, data: Seq<u8>) -> bool {
        &&& self.nonce.fits(data.len())
        &&& self.metahash.fits(data.len())
        &&& self.ciphertext.fits(data.len())
    }

    /// The payload that the spans pick out of `data`.
    pub open spec fn of(self, data: Seq<u8>) -> Sealed {
        Sealed {
            nonce: self.nonce.of(data),
            tag: self.metahash.of(data),
            ciphertext: self.ciphertext.of(data),
        }
    }

    /// Copies the payload out of the file.
    pub fn to_owned(&self, data: &[u8]) -> (out: EncryptedPayload)
        requires
            self.fits(data@),
        ensures
            out@ == self.of(data@),
    {
        EncryptedPayload {
            nonce: self.nonce.copy(data),
            tag: self.metahash.copy(data),
            ciphertext: self.ciphertext.copy(data),
        }
    }
}

impl RawMetadata {
    /// The view belongs to `data`: its spans lie inside, the header is the
    /// front of the file, and a vault without stored metadata is open to
    /// every executable.
    pub open spec fn fits(self, data: Seq<u8>) -> bool {
        match self.stored {
            None => self.compatible_version == CompatibleVersion::Any,
            Some(raw) => {
                &&& raw.salt.fits(data.len())
                &&& raw.password_hash.fits(data.len())
                &&& raw.end <= data.len()
                &&& data.take(raw.end as int) == encode_header(self.header(data).unwrap())
            },
        }
    }

    /// The header that the view picks out of `data`, if one is stored.
    pub open spec fn header(self, data: Seq<u8>) -> Option<Header> {
        match self.stored {
            None => None,
            Some(raw) => Some(
                Header {
                    format_version: raw.format_version,
                    compatible_version: self.compatible_version,
                    kdf: raw.kdf,
                    salt: raw.salt.of(data),
                    verifier: raw.password_hash.of(data),
                },
            ),
        }
    }

    /// What the file holds according to this view and `payload`.
    pub open spec fn container(self, payload: RawPayload, data: Seq<u8>) -> Container {
        match self.header(data) {
            None => Container::Fresh,
            Some(h) => Container::Stored(h, payload.of(data)),
        }
    }

    /// Parses the file and returns the view of its header. An empty file
    /// gives the view of a fresh vault; a file that is not exactly one
    /// well-framed vault is corrupt.
    pub fn extract(data: &[u8]) -> (r: Result<RawMetadata, FormatError>)
        ensures
            match decode_spec(data@) {
                Err(e) => r == Err::<RawMetadata, FormatError>(e),
                Ok(c) => r matches Ok(m) && m.fits(data@) && match c {
                    Container::Fresh => m.header(data@) is None,
                    Container::Stored(h, _) => m.header(data@) == Some(h),
                },
            },
    {
        match decode(data) {
            Err(e) => Err(e),
            Ok((m, _)) => Ok(m),
        }
    }

    /// Which executables may open the vault.
    pub fn version(&self) -> (v: CompatibleVersion)
        ensures
            v == self.compatible_version,
    {
        self.compatible_version
    }

    /// Copies the header out of the file; `None` for a fresh vault.
    pub fn to_owned(&self, data: &[u8]) -> (out: Option<Metadata>)
        requires
            self.fits(data@),
        ensures
            match self.header(data@) {
                None => out is None,
                Some(h) => out matches Some(m) && m@ == h,
            },
    {
        match self.stored {
            None => None,
            Some(raw) => Some(
                Metadata {
                    format_version: raw.format_version,
                    compatible_version: self.compatible_version,
                    kdf: raw.kdf,
                    salt: raw.salt.copy(data),
                    verifier: raw.password_hash.copy(data),
                },
            ),
        }
    }
}

fn read_magic(data: &[u8]) -> (r: Option<usize>)
    ensures
        match take_magic(data@) {
            None => r is None,
            Some(rest) => r == Some(4usize) && rest == data@.skip(4),
        },
{
    if data.len() < 4 {
        return None;
    }
    let ghost front = data@.take(4);
    assert(front[0] == data@[0] && front[1] == data@[1] && front[2] == data@[2] && front[3]
        == data@[3]);
    if data[0] != 0x56 || data[1] != 0x4C || data[2] != 0x54 || data[3] != 0x00 {
        return None;
    }
    assert(front =~= magic());
    Some(4)
}

fn read_compat(data: &[u8], pos: usize) -> (r: Option<(CompatibleVersion, usize)>)
    requires
        pos <= data@.len(),
    ensures
        match take_compat(data@.skip(pos as int)) {
            None => r is None,
            Some((c, rest)) => r matches Some((got, next)) && got == c && pos < next <= data@.len()
                && rest == data@.skip(next as int),
        },
{
    match read_u8(data, pos) {
        None => None,
        Some((tag, next)) => {
            if tag == 0 {
                Some((CompatibleVersion::Any, next))
            } else if tag == 1 {
                match read_u32(data, next) {
                    None => None,
                    Some((v, after)) => Some((CompatibleVersion::One(v), after)),
                }
            } else {
                None
            }
        },
    }
}

fn read_kdf(data: &[u8], pos: usize) -> (r: Option<(KdfParams, usize)>)
    requires
        pos <= data@.len(),
    ensures
        match take_kdf(data@.skip(pos as int)) {
            None => r is None,
            Some((k, rest)) => r matches Some((got, next)) && got == k && pos < next <= data@.len()
                && rest == data@.skip(next as int),
        },
{
    let (algorithm, p1) = match read_u8(data, pos) {
        None => { return None; },
        Some(x) => x,
    };
    let (m_cost, p2) = match read_u32(data, p1) {
        None => { return None; },
        Some(x) => x,
    };
    let (t_cost, p3) = match read_u32(data, p2) {
        None => { return None; },
        Some(x) => x,
    };
    let (p_cost, p4) = match read_u32(data, p3) {
        None => { return None; },
        Some(x) => x,
    };
    Some((KdfParams { algorithm, m_cost, t_cost, p_cost }, p4))
}

fn read_header(data: &[u8]) -> (r: Option<RawMetadata>)
    ensures
        match take_header(data@) {
            None => r is None,
            Some((h, rest)) => r matches Some(m) && m.fits(data@) && m.header(data@) == Some(h)
                && m.stored.unwrap().end > 0 && rest == data@.skip(m.stored.unwrap().end as int),
        },
{
    let p1 = match read_magic(data) {
        None => { return None; },
        Some(x) => x,
    };
    let (format_version, p2) = match read_u32(data, p1) {
        None => { return None; },
        Some(x) => x,
    };
    if format_version != FORMAT_VERSION {
        return None;
    }
    let (compatible_version, p3) = match read_compat(data, p2) {
        None => { return None; },
        Some(x) => x,
    };
    let (kdf, p4) = match read_kdf(data, p3) {
        None => { return None; },
        Some(x) => x,
    };
    let (salt, p5) = match read_framed(data, p4) {
        None => { return None; },
        Some(x) => x,
    };
    let (password_hash, end) = match read_framed(data, p5) {
        None => { return None; },
        Some(x) => x,
    };
    let m = RawMetadata {
        compatible_version,
        stored: Some(RawHeader { format_version, kdf, salt, password_hash, end }),
    };
    proof {
        lemma_take_header_inverse(data@);
        let h = take_header(data@).unwrap().0;
        assert(m.header(data@) == Some(h));
        assert(data@.take(end as int) =~= encode_header(h));
    }
    Some(m)
}

fn read_sealed(data: &[u8], pos: usize) -> (r: Option<(RawPayload, usize)>)
    requires
        pos <= data@.len(),
    ensures
        match take_sealed(data@.skip(pos as int)) {
            None => r is None,
            Some((p, rest)) => r matches Some((raw, next)) && raw.fits(data@) && raw.of(data@) == p
                && next <= data@.len() && rest == data@.skip(next as int),
        },
{
    let (nonce, p1) = match read_framed(data, pos) {
        None => { return None; },
        Some(x) => x,
    };
    let (metahash, p2) = match read_framed(data, p1) {
        None => { return None; },
        Some(x) => x,
    };
    let (ciphertext, p3) = match read_framed(data, p2) {
        None => { return None; },
        Some(x) => x,
    };
    Some((RawPayload { nonce, metahash, ciphertext }, p3))
}

/// Parses a vault file into views of its header and its payload.
///
/// An empty file is a fresh vault: no stored metadata, open to every
/// executable, and an empty payload. Any other file must be one header of a
/// known format version followed by one payload and nothing more; a file that
/// ends early, promises more bytes than it has, or goes on after the payload
/// is corrupt.
pub fn decode(data: &[u8]) -> (r: Result<(RawMetadata, RawPayload), FormatError>)
    ensures
        match decode_spec(data@) {
            Err(e) => r == Err::<(RawMetadata, RawPayload), FormatError>(e),
            Ok(c) => r matches Ok((m, p)) && m.fits(data@) && p.fits(data@) && m.container(
                p,
                data@,
            ) == c,
        },
{
    let origin = Span { start: 0, end: 0 };
    if data.len() == 0 {
        let m = RawMetadata { compatible_version: CompatibleVersion::Any, stored: None };
        return Ok((m, RawPayload { nonce: origin, metahash: origin, ciphertext: origin }));
    }
    let m = match read_header(data) {
        None => { return Err(FormatError::Corrupt); },
        Some(x) => x,
    };
    let end = match m.stored {
        None => { return Err(FormatError::Corrupt); },
        Some(raw) => raw.end,
    };
    let (p, stop) = match read_sealed(data, end) {
        None => { return Err(FormatError::Corrupt); },
        Some(x) => x,
    };
    if stop != data.len() {
        return Err(FormatError::Corrupt);
    }
    Ok((m, p))
}

fn write_compat(out: &mut Vec<u8>, c: CompatibleVersion)
    ensures
        final(out)@ == old(out)@ + encode_compat(c),
{
    match c {
        CompatibleVersion::Any => {
            out.push(0);
            assert(out@ =~= old(out)@ + encode_compat(c));
        },
        CompatibleVersion::One(v) => {
            out.push(1);
            put_u32(out, v);
            assert(out@ =~= old(out)@ + encode_compat(c));
        },
    }
}

fn write_kdf(out: &mut Vec<u8>, k: &KdfParams)
    ensures
        final(out)@ == old(out)@ + encode_kdf(*k),
{
    out.push(k.algorithm);
    put_u32(out, k.m_cost);
    put_u32(out, k.t_cost);
    put_u32(out, k.p_cost);
    assert(out@ =~= old(out)@ + encode_kdf(*k));
}

/// The bytes of the header, which are also the associated data that the
/// payload is sealed under.
pub fn header_bytes(metadata: &Metadata) -> (r: Result<Vec<u8>, FormatError>)
    ensures
        metadata.format_version != FORMAT_VERSION ==> r == Err::<Vec<u8>, FormatError>(
            FormatError::Corrupt,
        ),
        metadata.format_version == FORMAT_VERSION && !metadata@.encodable() ==> r == Err::<
            Vec<u8>,
            FormatError,
        >(FormatError::TooLarge),
        metadata@.encodable() ==> (r matches Ok(v) && v@ == encode_header(metadata@)),
{
    if metadata.format_version != FORMAT_VERSION {
        return Err(FormatError::Corrupt);
    }
    let mut out: Vec<u8> = Vec::new();
    out.push(0x56);
    out.push(0x4C);
    out.push(0x54);
    out.push(0x00);
    assert(out@ =~= magic());
    put_u32(&mut out, metadata.format_version);
    write_compat(&mut out, metadata.compatible_version);
    write_kdf(&mut out, &metadata.kdf);
    if !put_framed(&mut out, metadata.salt.as_slice()) {
        return Err(FormatError::TooLarge);
    }
    if !put_framed(&mut out, metadata.verifier.as_slice()) {
        return Err(FormatError::TooLarge);
    }
    assert(out@ =~= encode_header(metadata@));
    Ok(out)
}

/// Writes a vault file: the exact inverse of [`decode`] on stored vaults.
///
/// Fails with `Corrupt` for a format version this crate does not write, and
/// with `TooLarge` when a field is longer than its length prefix can say.
pub fn encode(metadata: &Metadata, payload: &EncryptedPayload) -> (r: Result<Vec<u8>, FormatError>)
    ensures
        match encode_spec(metadata@, payload@) {
            Err(e) => r == Err::<Vec<u8>, FormatError>(e),
            Ok(bytes) => r matches Ok(v) && v@ == bytes,
        },
{
    let mut out = match header_bytes(metadata) {
        Err(e) => { return Err(e); },
        Ok(v) => v,
    };
    if payload.nonce.len() > 0xFFFF_FFFF || payload.tag.len() > 0xFFFF_FFFF
        || payload.ciphertext.len() > 0xFFFF_FFFF {
        return Err(FormatError::TooLarge);
    }
    put_framed(&mut out, payload.nonce.as_slice());
    put_framed(&mut out, payload.tag.as_slice());
    put_framed(&mut out, payload.ciphertext.as_slice());
    assert(out@ =~= encode_header(metadata@) + encode_sealed(payload@));
    Ok(out)
}

} // verus!
