//! Authenticated encryption of the record set, and the nonces it is sealed
//! under.
//!
//! The cipher is XChaCha20-Poly1305: a key of 32 bytes, a nonce of 24 bytes
//! and a tag of 16 bytes. A nonce is a save counter of eight bytes followed
//! by sixteen random bytes: the counter makes the nonces of one vault differ
//! from save to save, the random part keeps copies of a vault apart.

use vstd::prelude::*;
use crate::error::AuthError;
use crate::kdf::{DerivedKey, KEY_LEN};
use crate::wire::{be_u32, put_u32, read_u32, u32_be};
use crate::wire::lemma_u32_round_trip;

verus! {

/// Length of a nonce.
pub const NONCE_LEN: usize = 24;

/// Length of the random part of a nonce.
pub const NONCE_RANDOM_LEN: usize = 16;

/// Length of an authentication tag.
pub const TAG_LEN: usize = 16;

/// Longest plaintext or ciphertext that is handed to the cipher.
pub const MAX_MESSAGE_LEN: usize = 0xFFFF_FFFF;

/// Ciphertext and tag that XChaCha20-Poly1305 yields for a key, a nonce, a
/// plaintext and associated data; `None` where it refuses the plaintext.
pub uninterp spec fn xchacha20poly1305_seal(
    key: Seq<u8>,
    nonce: Seq<u8>,
    plaintext: Seq<u8>,
    associated_data: Seq<u8>,
) -> Option<(Seq<u8>, Seq<u8>)>;

/// The plaintext that XChaCha20-Poly1305 yields for a key, a nonce, a
/// ciphertext, a tag and associated data; `None` where the tag does not
/// authenticate them.
pub uninterp spec fn xchacha20poly1305_open(
    key: Seq<u8>,
    nonce: Seq<u8>,
    ciphertext: Seq<u8>,
    tag: Seq<u8>,
    associated_data: Seq<u8>,
) -> Option<Seq<u8>>;

/// Seals with `chacha20poly1305::XChaCha20Poly1305`, through
/// `AeadInPlace::encrypt_in_place_detached`. Claimed here, for a plaintext of
/// at most `u32::MAX` bytes: the outcome is a function of the arguments; the
/// call succeeds; the ciphertext is as long as the plaintext and the tag has
/// 16 bytes; and opening what was sealed, with the same key, nonce and
/// associated data, gives the plaintext back.
///
/// Kept out, because the crate panics on them: a key or nonce of another
/// length, and the longest plaintexts. The cipher refuses a buffer of
/// `u32::MAX` blocks of 64 bytes or more, but its keystream, which starts at
/// block one, runs out within the last block below that and then panics. The
/// bound here lies far below both.
#[verifier::external_body]
fn seal(key: &[u8], nonce: &[u8], plaintext: &[u8], associated_data: &[u8]) -> (out: Option<
    (Vec<u8>, Vec<u8>),
>)
    requires
        key@.len() == KEY_LEN,
        nonce@.len() == NONCE_LEN,
        plaintext@.len() <= MAX_MESSAGE_LEN,
    ensures
        match xchacha20poly1305_seal(key@, nonce@, plaintext@, associated_data@) {
            None => out is None,
            Some((c, t)) => out matches Some((ciphertext, tag)) && ciphertext@ == c && tag@ == t
                && c.len() == plaintext@.len() && t.len() == TAG_LEN && xchacha20poly1305_open(
                key@,
                nonce@,
                c,
                t,
                associated_data@,
            ) == Some(plaintext@),
        },
        out is Some,
{
    let cipher: chacha20poly1305::XChaCha20Poly1305 = chacha20poly1305::KeyInit::new(
        chacha20poly1305::Key::from_slice(key),
    );
    let mut buffer = plaintext.to_vec();
    let tag = chacha20poly1305::AeadInPlace::encrypt_in_place_detached(
        &cipher,
        chacha20poly1305::XNonce::from_slice(nonce),
        associated_data,
        &mut buffer,
    ).ok()?;
    Some((buffer, tag.to_vec()))
}

/// Opens with `chacha20poly1305::XChaCha20Poly1305`, through
/// `AeadInPlace::decrypt_in_place_detached`. Claimed here, for a ciphertext
/// of at most `u32::MAX` bytes: the outcome is a function of the arguments,
/// and a plaintext is as long as the ciphertext.
///
/// Kept out, because the crate panics on them: a key, nonce or tag of
/// another length, and the longest ciphertexts, on which the keystream runs
/// out once the tag has been found good, as it does when sealing.
#[verifier::external_body]
fn open(key: &[u8], nonce: &[u8], ciphertext: &[u8], tag: &[u8], associated_data: &[u8]) -> (out:
    Option<Vec<u8>>)
    requires
        key@.len() == KEY_LEN,
        nonce@.len() == NONCE_LEN,
        tag@.len() == TAG_LEN,
        ciphertext@.len() <= MAX_MESSAGE_LEN,
    ensures
        match xchacha20poly1305_open(key@, nonce@, ciphertext@, tag@, associated_data@) {
            None => out is None,
            Some(p) => out matches Some(plaintext) && plaintext@ == p && p.len()
                == ciphertext@.len(),
        },
{
    let cipher: chacha20poly1305::XChaCha20Poly1305 = chacha20poly1305::KeyInit::new(
        chacha20poly1305::Key::from_slice(key),
    );
    let mut buffer = ciphertext.to_vec();
    chacha20poly1305::AeadInPlace::decrypt_in_place_detached(
        &cipher,
        chacha20poly1305::XNonce::from_slice(nonce),
        associated_data,
        &mut buffer,
        chacha20poly1305::Tag::from_slice(tag),
    ).ok()?;
    Some(buffer)
}

/// What encryption yields: nothing for a key or nonce of the wrong length
/// and for a plaintext of more than `u32::MAX` bytes, else what the cipher
/// yields.
pub open spec fn encrypt_spec(
    key: Seq<u8>,
    nonce: Seq<u8>,
    plaintext: Seq<u8>,
    associated_data: Seq<u8>,
) -> Option<(Seq<u8>, Seq<u8>)> {
    if key.len() == KEY_LEN && nonce.len() == NONCE_LEN && plaintext.len() <= MAX_MESSAGE_LEN {
        xchacha20poly1305_seal(key, nonce, plaintext, associated_data)
    } else {
        None
    }
}

/// What decryption yields: the plaintext, or the one failure that stands
/// for a wrong key, a changed ciphertext, tag, nonce or header, a field of
/// the wrong length and a ciphertext of more than `u32::MAX` bytes alike.
pub open spec fn decrypt_spec(
    key: Seq<u8>,
    nonce: Seq<u8>,
    ciphertext: Seq<u8>,
    tag: Seq<u8>,
    associated_data: Seq<u8>,
) -> Result<Seq<u8>, AuthError> {
    if key.len() == KEY_LEN && nonce.len() == NONCE_LEN && tag.len() == TAG_LEN
        && ciphertext.len() <= MAX_MESSAGE_LEN {
        match xchacha20poly1305_open(key, nonce, ciphertext, tag, associated_data) {
            Some(plaintext) => Ok(plaintext),
            None => Err(AuthError::TamperedOrWrongKey),
        }
    } else {
        Err(AuthError::TamperedOrWrongKey)
    }
}

/// Encrypts `plaintext` under `key` and `nonce` and binds it to
/// `associated_data`. Returns ciphertext and tag.
///
/// A plaintext of up to `u32::MAX` bytes is always encrypted when key and
/// nonce have their lengths, and what comes back decrypts to the plaintext.
/// A longer plaintext is refused.
pub fn encrypt(key: &DerivedKey, nonce: &[u8], plaintext: &[u8], associated_data: &[u8]) -> (r:
    Option<(Vec<u8>, Vec<u8>)>)
    ensures
        match encrypt_spec(key@.key, nonce@, plaintext@, associated_data@) {
            None => r is None,
            Some((c, t)) => r matches Some((ciphertext, tag)) && ciphertext@ == c && tag@ == t
                && c.len() == plaintext@.len() && t.len() == TAG_LEN && decrypt_spec(
                key@.key,
                nonce@,
                c,
                t,
                associated_data@,
            ) == Ok::<Seq<u8>, AuthError>(plaintext@),
        },
        r is Some <==> key@.key.len() == KEY_LEN && nonce@.len() == NONCE_LEN && plaintext@.len()
            <= MAX_MESSAGE_LEN,
{
    if key.key_bytes().len() != KEY_LEN || nonce.len() != NONCE_LEN || plaintext.len()
        > MAX_MESSAGE_LEN {
        return None;
    }
    seal(key.key_bytes(), nonce, plaintext, associated_data)
}

/// Decrypts `ciphertext` after authenticating it, the tag and the
/// associated data. Every failure is the same `TamperedOrWrongKey`.
pub fn decrypt(
    key: &DerivedKey,
    nonce: &[u8],
    ciphertext: &[u8],
    tag: &[u8],
    associated_data: &[u8],
) -> (r: Result<Vec<u8>, AuthError>)
    ensures
        match decrypt_spec(key@.key, nonce@, ciphertext@, tag@, associated_data@) {
            Err(e) => r == Err::<Vec<u8>, AuthError>(e),
            Ok(p) => r matches Ok(plaintext) && plaintext@ == p && p.len() == ciphertext@.len(),
        },
{
    if key.key_bytes().len() != KEY_LEN || nonce.len() != NONCE_LEN || tag.len() != TAG_LEN
        || ciphertext.len() > MAX_MESSAGE_LEN {
        return Err(AuthError::TamperedOrWrongKey);
    }
    match open(key.key_bytes(), nonce, ciphertext, tag, associated_data) {
        Some(plaintext) => Ok(plaintext),
        None => Err(AuthError::TamperedOrWrongKey),
    }
}

/// The eight bytes of `n`, most significant first.
pub open spec fn u64_be(n: u64) -> Seq<u8> {
    u32_be((n / 0x1_0000_0000) as u32) + u32_be((n % 0x1_0000_0000) as u32)
}

/// The nonce of save number `sequence` with random part `random`.
pub open spec fn nonce_spec(sequence: u64, random: Seq<u8>) -> Seq<u8> {
    u64_be(sequence) + random
}

/// The save counter that a nonce begins with.
pub open spec fn nonce_sequence(nonce: Seq<u8>) -> u64
    recommends
        nonce.len() >= 8,
{
    (be_u32(nonce.subrange(0, 4)) as int * 0x1_0000_0000 + be_u32(nonce.subrange(4, 8)) as int) as u64
}

/// A nonce carries its save counter.
pub proof fn lemma_nonce_sequence(sequence: u64, random: Seq<u8>)
    ensures
        nonce_spec(sequence, random).len() == 8 + random.len(),
        nonce_sequence(nonce_spec(sequence, random)) == sequence,
{
    let hi = (sequence / 0x1_0000_0000) as u32;
    let lo = (sequence % 0x1_0000_0000) as u32;
    lemma_u32_round_trip(hi);
    lemma_u32_round_trip(lo);
    let nonce = nonce_spec(sequence, random);
    assert(nonce.subrange(0, 4) =~= u32_be(hi));
    assert(nonce.subrange(4, 8) =~= u32_be(lo));
}

/// Nonces of different saves differ, whatever their random parts.
pub proof fn lemma_nonces_differ(first: u64, second: u64, random1: Seq<u8>, random2: Seq<u8>)
    requires
        first != second,
    ensures
        nonce_spec(first, random1) != nonce_spec(second, random2),
{
    lemma_nonce_sequence(first, random1);
    lemma_nonce_sequence(second, random2);
}

/// Builds the nonce of save number `sequence`: the counter, then `random`.
/// With a random part of sixteen bytes the nonce has its full length.
pub fn make_nonce(sequence: u64, random: &[u8]) -> (nonce: Vec<u8>)
    ensures
        nonce@ == nonce_spec(sequence, random@),
        nonce@.len() == 8 + random@.len(),
{
    let mut nonce: Vec<u8> = Vec::new();
    put_u32(&mut nonce, (sequence / 0x1_0000_0000) as u32);
    put_u32(&mut nonce, (sequence % 0x1_0000_0000) as u32);
    nonce.extend_from_slice(random);
    proof {
        lemma_nonce_sequence(sequence, random@);
        assert(nonce@ =~= nonce_spec(sequence, random@));
    }
    nonce
}

/// Reads the save counter of a nonce; nothing for fewer than eight bytes.
pub fn read_sequence(nonce: &[u8]) -> (sequence: Option<u64>)
    ensures
        sequence == (if nonce@.len() >= 8 {
            Some(nonce_sequence(nonce@))
        } else {
            None
        }),
{
    if nonce.len() < 8 {
        return None;
    }
    let (hi, _) = match read_u32(nonce, 0) {
        None => { return None; },
        Some(x) => x,
    };
    let (lo, _) = match read_u32(nonce, 4) {
        None => { return None; },
        Some(x) => x,
    };
    assert(nonce@.skip(0).take(4) =~= nonce@.subrange(0, 4));
    assert(nonce@.skip(4).take(4) =~= nonce@.subrange(4, 8));
    Some((hi as u64) * 0x1_0000_0000 + (lo as u64))
}

} // verus!
