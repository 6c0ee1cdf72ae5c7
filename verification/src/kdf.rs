//! Key derivation: from the master password and the stored salt to the
//! encryption key and the verifier.
//!
//! The password is stretched with Argon2id into a master secret of 32 bytes.
//! The encryption key and the verifier are two labelled HKDF-SHA256
//! expansions of that secret, so knowing the stored verifier does not give
//! the key.

use vstd::prelude::*;
use vstd::utf8::encode_utf8;
use crate::layout::KdfParams;
use crate::memory::{constant_time_eq, wipe_bytes};

verus! {

/// Identifier of Argon2id in the header.
pub const ARGON2ID: u8 = 1;

/// Length of the master secret, of the encryption key and of the verifier.
pub const KEY_LEN: usize = 32;

/// Most memory a vault may ask for, in KiB: 1 GiB.
pub const MAX_M_COST: u32 = 0x10_0000;

/// Most passes a vault may ask for.
pub const MAX_T_COST: u32 = 0x1_0000;

/// Most lanes a vault may ask for.
pub const MAX_P_COST: u32 = 0xFF;

/// Shortest salt that is accepted.
pub const MIN_SALT_LEN: usize = 8;

/// Longest salt that is accepted.
pub const MAX_SALT_LEN: usize = 64;

/// Length of the salt of a new vault.
pub const NEW_SALT_LEN: usize = 16;

/// What Argon2id, version 0x13, without secret or associated data, yields
/// for a password, a salt, the three cost parameters and an output length;
/// `None` where it rejects its input.
pub uninterp spec fn argon2id_hash(
    password: Seq<u8>,
    salt: Seq<u8>,
    m_cost: u32,
    t_cost: u32,
    p_cost: u32,
    len: nat,
) -> Option<Seq<u8>>;

/// The first `len` bytes of HKDF-SHA256 output for input key material
/// `secret`, no salt, and `label` as the info string.
pub uninterp spec fn hkdf_sha256(secret: Seq<u8>, label: Seq<u8>, len: nat) -> Seq<u8>;

/// What Argon2id asks of its input: at least eight KiB of memory and eight
/// per lane, at least one pass and one lane, at least four bytes of output,
/// a salt of eight bytes or more, and neither password nor salt longer than
/// `u32::MAX` bytes.
pub open spec fn argon2id_accepts(
    password_len: nat,
    salt_len: nat,
    m_cost: u32,
    t_cost: u32,
    p_cost: u32,
    len: nat,
) -> bool {
    &&& 8 <= m_cost
    &&& 8 * p_cost <= m_cost
    &&& 1 <= t_cost
    &&& 1 <= p_cost
    &&& 4 <= len
    &&& password_len <= u32::MAX
    &&& 8 <= salt_len <= u32::MAX
}

/// Runs Argon2id through `argon2::Params::new` and
/// `argon2::Argon2::hash_password_into`. Claimed here: the outcome is a
/// function of the arguments; there is one exactly where the input is what
/// `Params::new` and `hash_password_into` ask for; and an output has the
/// length asked for. `Params::new` multiplies the lane count by eight before
/// it looks at its range, so lane counts that would overflow are kept out;
/// the output is kept to the 64 bytes of one hash.
#[verifier::external_body]
fn argon2id(
    password: &[u8],
    salt: &[u8],
    m_cost: u32,
    t_cost: u32,
    p_cost: u32,
    len: usize,
) -> (out: Option<Vec<u8>>)
    requires
        p_cost <= 0xFF_FFFF,
        len <= 64,
    ensures
        match argon2id_hash(password@, salt@, m_cost, t_cost, p_cost, len as nat) {
            None => out is None,
            Some(hash) => out matches Some(v) && v@ == hash,
        },
        out matches Some(v) ==> v@.len() == len,
        out is Some <==> argon2id_accepts(
            password@.len(),
            salt@.len(),
            m_cost,
            t_cost,
            p_cost,
            len as nat,
        ),
{
    let params = argon2::Params::new(m_cost, t_cost, p_cost, Some(len)).ok()?;
    let mut out = vec![0u8; len];
    argon2::Argon2::new(argon2::Algorithm::Argon2id, argon2::Version::V0x13, params)
        .hash_password_into(password, salt, &mut out)
        .ok()?;
    Some(out)
}

/// Expands `secret` under `label` with `hkdf::Hkdf::<sha2::Sha256>::new`
/// (no salt) and `expand`. Claimed here: the output is a function of the
/// arguments and has the length asked for; `expand` fails only for more than
/// 255 hash lengths of output, which the bound on `len` keeps out.
#[verifier::external_body]
fn hkdf_expand(secret: &[u8], label: &[u8], len: usize) -> (out: Option<Vec<u8>>)
    requires
        len <= 8160,
    ensures
        out is Some,
        out matches Some(v) ==> v@ == hkdf_sha256(secret@, label@, len as nat) && v@.len() == len,
{
    let mut out = vec![0u8; len];
    hkdf::Hkdf::<sha2::Sha256>::new(None, secret).expand(label, &mut out).ok()?;
    Some(out)
}

/// The label under which the encryption key is expanded: "key".
pub open spec fn key_label() -> Seq<u8> {
    seq![0x6Bu8, 0x65u8, 0x79u8]
}

/// The label under which the verifier is expanded: "verifier".
pub open spec fn verifier_label() -> Seq<u8> {
    seq![0x76u8, 0x65u8, 0x72u8, 0x69u8, 0x66u8, 0x69u8, 0x65u8, 0x72u8]
}

impl KdfParams {
    /// The parameters name Argon2id and stay inside what this crate is
    /// willing to spend: at least eight KiB per lane and at most 1 GiB, at
    /// most 65536 passes, at most 255 lanes.
    pub open spec fn acceptable(self) -> bool {
        &&& self.algorithm == ARGON2ID
        &&& 1 <= self.p_cost <= MAX_P_COST
        &&& 8 * self.p_cost <= self.m_cost <= MAX_M_COST
        &&& 1 <= self.t_cost <= MAX_T_COST
    }

    /// Whether the parameters are acceptable.
    pub fn is_acceptable(&self) -> (ok: bool)
        ensures
            ok == self.acceptable(),
    {
        self.algorithm == ARGON2ID && 1 <= self.p_cost && self.p_cost <= MAX_P_COST && 8
            * self.p_cost <= self.m_cost && self.m_cost <= MAX_M_COST && 1 <= self.t_cost
            && self.t_cost <= MAX_T_COST
    }

    /// The parameters of a new vault: Argon2id with 19 MiB, two passes, one
    /// lane.
    pub open spec fn recommended_spec() -> KdfParams {
        KdfParams { algorithm: ARGON2ID, m_cost: 19456, t_cost: 2, p_cost: 1 }
    }

    /// The parameters of a new vault.
    pub fn recommended() -> (params: KdfParams)
        ensures
            params == KdfParams::recommended_spec(),
            params.acceptable(),
    {
        KdfParams { algorithm: ARGON2ID, m_cost: 19456, t_cost: 2, p_cost: 1 }
    }
}

/// A salt of acceptable length.
pub open spec fn salt_acceptable(salt: Seq<u8>) -> bool {
    MIN_SALT_LEN <= salt.len() <= MAX_SALT_LEN
}

/// What a derived key holds.
pub struct KeyMaterial {
    pub key: Seq<u8>,
    pub verifier: Seq<u8>,
}

/// The secret of one unlock session: the encryption key and the verifier.
pub struct DerivedKey {
    key: Vec<u8>,
    verifier: Vec<u8>,
}

impl View for DerivedKey {
    type V = KeyMaterial;

    closed spec fn view(&self) -> KeyMaterial {
        KeyMaterial { key: self.key@, verifier: self.verifier@ }
    }
}

/// Key and verifier that follow from a master secret.
pub open spec fn expand_spec(master: Seq<u8>) -> KeyMaterial {
    KeyMaterial {
        key: hkdf_sha256(master, key_label(), KEY_LEN as nat),
        verifier: hkdf_sha256(master, verifier_label(), KEY_LEN as nat),
    }
}

/// What derivation yields: nothing for parameters or a salt that are not
/// acceptable, or a password that Argon2id rejects; else the two expansions
/// of the master secret.
pub open spec fn derive_spec(password: Seq<u8>, salt: Seq<u8>, params: KdfParams) -> Option<
    KeyMaterial,
> {
    if !params.acceptable() || !salt_acceptable(salt) {
        None
    } else {
        match argon2id_hash(
            password,
            salt,
            params.m_cost,
            params.t_cost,
            params.p_cost,
            KEY_LEN as nat,
        ) {
            None => None,
            Some(master) => Some(expand_spec(master)),
        }
    }
}

impl DerivedKey {
    /// Key and verifier both have their full length.
    pub open spec fn well_formed(&self) -> bool {
        self@.key.len() == KEY_LEN && self@.verifier.len() == KEY_LEN
    }

    /// Key and verifier have been erased.
    pub open spec fn wiped(&self) -> bool {
        self@.key.len() == 0 && self@.verifier.len() == 0
    }

    /// Puts a key and a verifier together, if both have 32 bytes.
    pub fn from_parts(key: Vec<u8>, verifier: Vec<u8>) -> (r: Option<DerivedKey>)
        ensures
            match r {
                Some(k) => k@.key == key@ && k@.verifier == verifier@ && k.well_formed(),
                None => key@.len() != KEY_LEN || verifier@.len() != KEY_LEN,
            },
    {
        if key.len() == KEY_LEN && verifier.len() == KEY_LEN {
            Some(DerivedKey { key, verifier })
        } else {
            None
        }
    }

    /// Expands a master secret into the encryption key and the verifier.
    pub fn expand(master: &[u8]) -> (r: Option<DerivedKey>)
        ensures
            r matches Some(k) && k@ == expand_spec(master@) && k.well_formed(),
    {
        let key_label: Vec<u8> = vec![0x6Bu8, 0x65u8, 0x79u8];
        let verifier_label: Vec<u8> = vec![
            0x76u8,
            0x65u8,
            0x72u8,
            0x69u8,
            0x66u8,
            0x69u8,
            0x65u8,
            0x72u8,
        ];
        assert(key_label@ =~= self::key_label());
        assert(verifier_label@ =~= self::verifier_label());
        let key = hkdf_expand(master, key_label.as_slice(), KEY_LEN);
        let verifier = hkdf_expand(master, verifier_label.as_slice(), KEY_LEN);
        match (key, verifier) {
            (Some(key), Some(verifier)) => Some(DerivedKey { key, verifier }),
            _ => None,
        }
    }

    /// The encryption key.
    pub fn key_bytes(&self) -> (bytes: &[u8])
        ensures
            bytes@ == self@.key,
    {
        self.key.as_slice()
    }

    /// The verifier that is stored in the header.
    pub fn verifier_bytes(&self) -> (bytes: &[u8])
        ensures
            bytes@ == self@.verifier,
    {
        self.verifier.as_slice()
    }

    /// Whether this key's verifier is the stored one, compared in constant
    /// time.
    pub fn verify(&self, stored: &[u8]) -> (same: bool)
        ensures
            same == (self@.verifier == stored@),
    {
        constant_time_eq(self.verifier.as_slice(), stored)
    }

    /// Erases key and verifier.
    pub fn wipe(&mut self)
        ensures
            final(self).wiped(),
    {
        wipe_bytes(&mut self.key);
        wipe_bytes(&mut self.verifier);
    }
}

impl Drop for DerivedKey {
    /// Erases key and verifier when the key goes out of use.
    fn drop(&mut self)
        opens_invariants none
        no_unwind
    {
        wipe_bytes(&mut self.key);
        wipe_bytes(&mut self.verifier);
    }
}

/// A key can be derived: the parameters and the salt are acceptable, and
/// the password has at most `u32::MAX` bytes.
pub open spec fn derivable(password: Seq<u8>, salt: Seq<u8>, params: KdfParams) -> bool {
    params.acceptable() && salt_acceptable(salt) && password.len() <= u32::MAX
}

/// Derives the session key from the master password.
///
/// Returns nothing, without running the derivation, when the parameters or
/// the salt are not acceptable; and nothing for a password of more than
/// `u32::MAX` bytes, which Argon2id rejects. Every other input gives a key,
/// and the same password, salt and parameters always give the same key.
pub fn derive(password: &str, salt: &[u8], params: &KdfParams) -> (r: Option<DerivedKey>)
    ensures
        match derive_spec(encode_utf8(password@), salt@, *params) {
            None => r is None,
            Some(material) => r matches Some(k) && k@ == material && k.well_formed(),
        },
        r is Some <==> derivable(encode_utf8(password@), salt@, *params),
{
    if !params.is_acceptable() || salt.len() < MIN_SALT_LEN || salt.len() > MAX_SALT_LEN {
        return None;
    }
    let mut master = match argon2id(
        password.as_bytes(),
        salt,
        params.m_cost,
        params.t_cost,
        params.p_cost,
        KEY_LEN,
    ) {
        None => { return None; },
        Some(m) => m,
    };
    let key = DerivedKey::expand(master.as_slice());
    wipe_bytes(&mut master);
    key
}

} // verus!
