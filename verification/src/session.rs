//! An unlocked vault: the metadata, the derived key and the record store of
//! one session, and the two ways in and the way out: creating a new vault,
//! unsealing a stored one, and sealing the session into a new file.

use vstd::prelude::*;
use vstd::utf8::encode_utf8;
use crate::codec::{encode, header_bytes, EncryptedPayload, Metadata};
use crate::crypto::{decrypt, encrypt, make_nonce, read_sequence};
use crate::crypto::{decrypt_spec, encrypt_spec, nonce_sequence, nonce_spec};
use crate::crypto::{MAX_MESSAGE_LEN, NONCE_LEN, NONCE_RANDOM_LEN, TAG_LEN};
use crate::crypto::{lemma_nonce_sequence, lemma_nonces_differ};
use crate::entropy::random_bytes;
use crate::error::{AuthError, FormatError, IoFailure, StoreError, UserError, VaultErr};
use crate::kdf::{derivable, derive_spec, salt_acceptable, DerivedKey, KeyMaterial};
use crate::kdf::{KEY_LEN, MAX_SALT_LEN, MIN_SALT_LEN, NEW_SALT_LEN};
use crate::layout::{
    decode_spec,
    encode_header,
    encode_layout,
    CompatibleVersion,
    Container,
    Header,
    KdfParams,
    Sealed,
    FORMAT_VERSION,
};
use crate::layout::lemma_decode_encode;
use crate::memory::wipe_bytes;
use crate::plaintext::{decode_records, encode_records, parse, records_encodable, serialize};
use crate::plaintext::lemma_records_round_trip;
use crate::records::{distinct_labels, has_label, position, CredentialEntry, Entry, RecordStore};
use crate::storage::{admission_spec, well_sized, Storage};

verus! {

/// What an unlocked session holds.
pub struct SessionView {
    pub metadata: Header,
    pub key: KeyMaterial,
    pub records: Seq<Entry>,
    /// The save counter of the nonce the vault was last sealed under; zero
    /// for a vault that was never saved.
    pub sequence: u64,
}

/// An unlocked vault.
pub struct Session {
    metadata: Metadata,
    key: DerivedKey,
    records: RecordStore,
    sequence: u64,
}

impl View for Session {
    type V = SessionView;

    closed spec fn view(&self) -> SessionView {
        SessionView {
            metadata: self.metadata@,
            key: self.key@,
            records: self.records@,
            sequence: self.sequence,
        }
    }
}

/// A session that can be worked with and saved: the metadata is that of a
/// format 1 vault with acceptable costs, the key has its lengths and its
/// verifier is the stored one, and no label occurs twice.
pub open spec fn session_valid(s: SessionView) -> bool {
    &&& s.metadata.format_version == FORMAT_VERSION
    &&& s.metadata.kdf.acceptable()
    &&& salt_acceptable(s.metadata.salt)
    &&& s.metadata.verifier == s.key.verifier
    &&& s.key.key.len() == crate::kdf::KEY_LEN
    &&& s.key.verifier.len() == crate::kdf::KEY_LEN
    &&& distinct_labels(s.records)
}

/// The session of a new vault: open to every executable, no records, never
/// saved. Nothing where no key can be derived from the arguments.
pub open spec fn create_spec(password: Seq<u8>, salt: Seq<u8>, params: KdfParams) -> Result<
    SessionView,
    VaultErr,
> {
    match derive_spec(password, salt, params) {
        None => Err(VaultErr::User(UserError::InvalidArguments)),
        Some(key) => Ok(
            SessionView {
                metadata: Header {
                    format_version: FORMAT_VERSION,
                    compatible_version: CompatibleVersion::Any,
                    kdf: params,
                    salt,
                    verifier: key.verifier,
                },
                key,
                records: Seq::<Entry>::empty(),
                sequence: 0,
            },
        ),
    }
}

/// What a derived key opens. A vault of another format version, or with
/// fields of sizes or costs that no vault of this format has, is corrupt. A key whose
/// verifier is not the stored one is a wrong password, and so is a payload
/// that does not authenticate under the key and the header: the two cannot
/// be told apart. An authentic payload that holds no record set is corrupt.
pub open spec fn unseal_spec(h: Header, p: Sealed, key: KeyMaterial) -> Result<
    SessionView,
    VaultErr,
> {
    if !well_sized(h, p) {
        Err(VaultErr::Format(FormatError::Corrupt))
    } else if key.verifier != h.verifier {
        Err(VaultErr::Auth(AuthError::WrongPassword))
    } else {
        match decrypt_spec(key.key, p.nonce, p.ciphertext, p.tag, encode_header(h)) {
            Err(_) => Err(VaultErr::Auth(AuthError::WrongPassword)),
            Ok(plaintext) => match decode_records(plaintext) {
                None => Err(VaultErr::Format(FormatError::Corrupt)),
                Some(records) => Ok(
                    SessionView { metadata: h, key, records, sequence: nonce_sequence(p.nonce) },
                ),
            },
        }
    }
}

/// What unlocking a stored vault yields: the refusal of the admission
/// where there is one, a wrong password where no key can be derived, else what the
/// derived key opens.
pub open spec fn unlock_spec(h: Header, p: Sealed, password: Seq<u8>, executable_version: u32) -> Result<
    SessionView,
    VaultErr,
> {
    match admission_spec(Container::Stored(h, p), executable_version) {
        Err(e) => Err(e),
        Ok(_) => match derive_spec(password, h.salt, h.kdf) {
            None => Err(VaultErr::Auth(AuthError::WrongPassword)),
            Some(key) => unseal_spec(h, p, key),
        },
    }
}

/// The payload that sealing a session yields under the random part
/// `random`, if the cipher yields one.
pub open spec fn sealed_payload(s: SessionView, random: Seq<u8>) -> Option<Sealed> {
    let nonce = nonce_spec((s.sequence + 1) as u64, random);
    match encrypt_spec(s.key.key, nonce, encode_records(s.records), encode_header(s.metadata)) {
        None => None,
        Some((ciphertext, tag)) => Some(Sealed { nonce, tag, ciphertext }),
    }
}

/// The session can be sealed: the save counter is not exhausted and the
/// record set fits the format.
pub open spec fn sealable(s: SessionView) -> bool {
    &&& s.sequence < u64::MAX
    &&& records_encodable(s.records)
    &&& encode_records(s.records).len() <= MAX_MESSAGE_LEN
}

/// The file that sealing a session yields. The random part must have its
/// length, and the session must be sealable.
pub open spec fn seal_spec(s: SessionView, random: Seq<u8>) -> Result<Seq<u8>, VaultErr> {
    if random.len() != NONCE_RANDOM_LEN {
        Err(VaultErr::User(UserError::InvalidArguments))
    } else if !sealable(s) {
        Err(VaultErr::Format(FormatError::TooLarge))
    } else {
        match sealed_payload(s, random) {
            None => Err(VaultErr::Format(FormatError::TooLarge)),
            Some(p) => Ok(encode_layout(s.metadata, p)),
        }
    }
}

/// Every password from which the session's key is derived unlocks the
/// payload `p` under the session's header, for every executable version
/// that the vault admits, to the session as it is found again after a save.
pub open spec fn unlocks_again(s: SessionView, p: Sealed) -> bool {
    forall|password: Seq<u8>, version: u32| #[trigger]
        derive_spec(password, s.metadata.salt, s.metadata.kdf) == Some(s.key)
            && #[trigger] s.metadata.compatible_version.admits(version) ==> unlock_spec(
            s.metadata,
            p,
            password,
            version,
        ) == Ok::<SessionView, VaultErr>(after_save(s))
}

/// The file `bytes` holds the session's metadata and the payload sealed
/// under `random`; the session's own key opens that payload to the session
/// as it is found again after a save, records and order included; and so
/// does every password that gives this key.
pub open spec fn reopens(s: SessionView, random: Seq<u8>, bytes: Seq<u8>) -> bool {
    match sealed_payload(s, random) {
        None => false,
        Some(p) => {
            &&& decode_spec(bytes) == Ok::<Container, FormatError>(Container::Stored(s.metadata, p))
            &&& well_sized(s.metadata, p)
            &&& unseal_spec(s.metadata, p, s.key) == Ok::<SessionView, VaultErr>(after_save(s))
            &&& unlocks_again(s, p)
        },
    }
}

/// The session with its secrets erased: no key, no verifier and no records
/// are left, while the metadata and the save counter stay.
pub open spec fn erased(s: SessionView) -> SessionView {
    SessionView {
        key: KeyMaterial { key: Seq::<u8>::empty(), verifier: Seq::<u8>::empty() },
        records: Seq::<Entry>::empty(),
        ..s
    }
}

/// The session as it is found again after a save.
pub open spec fn after_save(s: SessionView) -> SessionView {
    SessionView { sequence: (s.sequence + 1) as u64, ..s }
}

/// What starting a new vault with a salt from the operating system comes
/// to, whatever the salt: a valid session that `create_spec` gives for the
/// password, a salt of sixteen bytes and the recommended parameters; or no
/// randomness; or, only for a password of more than `u32::MAX` bytes, a
/// refusal of the password.
pub open spec fn created_outcome(r: Result<Session, VaultErr>, password: Seq<u8>) -> bool {
    match r {
        Ok(s) => s.well_formed() && s@.metadata.salt.len() == NEW_SALT_LEN && create_spec(
            password,
            s@.metadata.salt,
            KdfParams::recommended_spec(),
        ) == Ok::<SessionView, VaultErr>(s@),
        Err(e) => e == VaultErr::Io(IoFailure::EntropyUnavailable) || (e == VaultErr::User(
            UserError::InvalidArguments,
        ) && password.len() > u32::MAX),
    }
}

impl Session {
    /// The session's invariant.
    pub open spec fn well_formed(&self) -> bool {
        session_valid(self@)
    }

    /// Starts a new vault under `password`, with the given salt and key
    /// derivation parameters. Fails with `InvalidArguments` exactly where
    /// the parameters or the salt are not acceptable or the password has
    /// more than `u32::MAX` bytes.
    pub fn create_with(password: &str, salt: Vec<u8>, params: KdfParams) -> (r: Result<
        Session,
        VaultErr,
    >)
        ensures
            match create_spec(encode_utf8(password@), salt@, params) {
                Err(e) => r == Err::<Session, VaultErr>(e),
                Ok(view) => r matches Ok(s) && s@ == view && s.well_formed(),
            },
            r is Ok <==> derivable(encode_utf8(password@), salt@, params),
    {
        let key = match crate::kdf::derive(password, salt.as_slice(), &params) {
            None => { return Err(VaultErr::User(UserError::InvalidArguments)); },
            Some(key) => key,
        };
        let verifier = vstd::slice::slice_to_vec(key.verifier_bytes());
        let metadata = Metadata {
            format_version: FORMAT_VERSION,
            compatible_version: CompatibleVersion::Any,
            kdf: params,
            salt,
            verifier,
        };
        Ok(Session { metadata, key, records: RecordStore::new(), sequence: 0 })
    }

    /// Starts a new vault under `password`, with a fresh random salt and the
    /// recommended parameters.
    ///
    /// Whatever salt the operating system gives, the session is the one that
    /// `create_with` makes of it. Fails with `EntropyUnavailable` where no
    /// salt is to be had, and with `InvalidArguments` only for a password of
    /// more than `u32::MAX` bytes.
    pub fn create(password: &str) -> (r: Result<Session, VaultErr>)
        ensures
            created_outcome(r, encode_utf8(password@)),
    {
        let salt = match random_bytes(NEW_SALT_LEN) {
            None => { return Err(VaultErr::Io(IoFailure::EntropyUnavailable)); },
            Some(salt) => salt,
        };
        Session::create_with(password, salt, KdfParams::recommended())
    }

    /// Opens a stored vault with a key that was derived for it.
    ///
    /// The verifier is compared first, in constant time, and nothing is
    /// decrypted for a key whose verifier is not the stored one. Every
    /// authentication failure is the same `WrongPassword`.
    pub fn unseal(metadata: Metadata, payload: &EncryptedPayload, key: DerivedKey) -> (r: Result<
        Session,
        VaultErr,
    >)
        ensures
            match unseal_spec(metadata@, payload@, key@) {
                Err(e) => r == Err::<Session, VaultErr>(e),
                Ok(view) => r matches Ok(s) && s@ == view && s.well_formed(),
            },
    {
        let salt_len = metadata.salt.len();
        if metadata.format_version != FORMAT_VERSION || !metadata.kdf.is_acceptable() || salt_len
            < MIN_SALT_LEN || salt_len > MAX_SALT_LEN || metadata.verifier.len() != KEY_LEN
            || payload.nonce.len() != NONCE_LEN || payload.tag.len() != TAG_LEN {
            return Err(VaultErr::Format(FormatError::Corrupt));
        }
        if !key.verify(metadata.verifier.as_slice()) {
            return Err(VaultErr::Auth(AuthError::WrongPassword));
        }
        let header = match header_bytes(&metadata) {
            Err(e) => { return Err(VaultErr::Format(e)); },
            Ok(header) => header,
        };
        let mut plaintext = match decrypt(
            &key,
            payload.nonce.as_slice(),
            payload.ciphertext.as_slice(),
            payload.tag.as_slice(),
            header.as_slice(),
        ) {
            Err(_) => { return Err(VaultErr::Auth(AuthError::WrongPassword)); },
            Ok(plaintext) => plaintext,
        };
        let parsed = parse(plaintext.as_slice());
        wipe_bytes(&mut plaintext);
        let records = match parsed {
            None => { return Err(VaultErr::Format(FormatError::Corrupt)); },
            Some(records) => records,
        };
        let sequence = match read_sequence(payload.nonce.as_slice()) {
            None => { return Err(VaultErr::Format(FormatError::Corrupt)); },
            Some(sequence) => sequence,
        };
        Ok(Session { metadata, key, records, sequence })
    }

    /// Seals the session into the bytes of a new vault file, under the nonce
    /// that follows the last one and carries `random` as its random part,
    /// and counts the save: the next seal uses the nonce after this one.
    ///
    /// The file, once decoded, holds this session's metadata, and this
    /// session's key opens it to exactly this session's records, in order.
    /// On failure the session stays as it was.
    pub fn seal_with(&mut self, random: &[u8]) -> (r: Result<Vec<u8>, VaultErr>)
        requires
            old(self).well_formed(),
        ensures
            final(self).well_formed(),
            match seal_spec(old(self)@, random@) {
                Err(e) => r == Err::<Vec<u8>, VaultErr>(e) && *final(self) == *old(self),
                Ok(bytes) => r matches Ok(v) && v@ == bytes && final(self)@ == after_save(
                    old(self)@,
                ),
            },
            r is Ok <==> random@.len() == NONCE_RANDOM_LEN && sealable(old(self)@),
            r matches Ok(v) ==> reopens(old(self)@, random@, v@),
    {
        if random.len() != NONCE_RANDOM_LEN {
            return Err(VaultErr::User(UserError::InvalidArguments));
        }
        if self.sequence == u64::MAX {
            return Err(VaultErr::Format(FormatError::TooLarge));
        }
        let mut plaintext = match serialize(&self.records) {
            None => { return Err(VaultErr::Format(FormatError::TooLarge)); },
            Some(plaintext) => plaintext,
        };
        if plaintext.len() > MAX_MESSAGE_LEN {
            wipe_bytes(&mut plaintext);
            return Err(VaultErr::Format(FormatError::TooLarge));
        }
        let header = match header_bytes(&self.metadata) {
            Err(e) => {
                wipe_bytes(&mut plaintext);
                return Err(VaultErr::Format(e));
            },
            Ok(header) => header,
        };
        let next: u64 = self.sequence + 1;
        let nonce = make_nonce(next, random);
        let sealed = encrypt(&self.key, nonce.as_slice(), plaintext.as_slice(), header.as_slice());
        wipe_bytes(&mut plaintext);
        let (ciphertext, tag) = match sealed {
            None => { return Err(VaultErr::Format(FormatError::TooLarge)); },
            Some(sealed) => sealed,
        };
        let payload = EncryptedPayload { nonce, tag, ciphertext };
        assert(sealed_payload(self@, random@) == Some(payload@));
        proof {
            lemma_sealed_reopens(self@, random@);
        }
        let bytes = match encode(&self.metadata, &payload) {
            Err(e) => { return Err(VaultErr::Format(e)); },
            Ok(bytes) => bytes,
        };
        self.sequence = next;
        Ok(bytes)
    }

    /// Seals the session under a nonce with a fresh random part, and counts
    /// the save.
    ///
    /// Whatever random part the operating system gives, the file is the one
    /// that `seal_with` makes of it, and this session's key opens it to this
    /// session's records. Fails with `EntropyUnavailable` where no random
    /// bytes are to be had, and with `TooLarge` exactly where the session
    /// cannot be sealed; on failure the session stays as it was.
    pub fn seal(&mut self) -> (r: Result<Vec<u8>, VaultErr>)
        requires
            old(self).well_formed(),
        ensures
            final(self).well_formed(),
            match r {
                Ok(v) => final(self)@ == after_save(old(self)@) && exists|random: Seq<u8>|
                    random.len() == NONCE_RANDOM_LEN && #[trigger] seal_spec(old(self)@, random)
                        == Ok::<Seq<u8>, VaultErr>(v@) && reopens(old(self)@, random, v@),
                Err(e) => *final(self) == *old(self) && if sealable(old(self)@) {
                    e == VaultErr::Io(IoFailure::EntropyUnavailable)
                } else {
                    e == VaultErr::Io(IoFailure::EntropyUnavailable) || e == VaultErr::Format(
                        FormatError::TooLarge,
                    )
                },
            },
    {
        let random = match random_bytes(NONCE_RANDOM_LEN) {
            None => { return Err(VaultErr::Io(IoFailure::EntropyUnavailable)); },
            Some(random) => random,
        };
        let r = self.seal_with(random.as_slice());
        proof {
            if r is Ok {
                assert(seal_spec(old(self)@, random@) == Ok::<Seq<u8>, VaultErr>(r.unwrap()@));
            }
        }
        r
    }

    /// The metadata that will be written with the next save.
    pub fn metadata(&self) -> (m: &Metadata)
        ensures
            m@ == self@.metadata,
    {
        &self.metadata
    }

    /// The entries in insertion order.
    pub fn list(&self) -> (entries: &Vec<CredentialEntry>)
        ensures
            crate::records::entries_view(entries@) == self@.records,
    {
        self.records.list()
    }

    /// The entry labelled `label`, if there is one.
    pub fn get(&self, label: &str) -> (r: Option<&CredentialEntry>)
        requires
            self.well_formed(),
        ensures
            if has_label(self@.records, label@) {
                r matches Some(e) && e@ == self@.records[position(self@.records, label@)]
            } else {
                r is None
            },
    {
        self.records.get(label)
    }

    /// Adds an entry, or replaces the one of the same label when
    /// `overwrite` is set; see [`RecordStore::insert`]. Nothing is persisted
    /// before the next save.
    pub fn insert(&mut self, entry: CredentialEntry, overwrite: bool) -> (r: Result<(), StoreError>)
        requires
            old(self).well_formed(),
        ensures
            final(self).well_formed(),
            final(self)@ == (SessionView { records: final(self)@.records, ..old(self)@ }),
            if has_label(old(self)@.records, entry@.label) {
                if overwrite {
                    r is Ok && final(self)@.records == old(self)@.records.update(
                        position(old(self)@.records, entry@.label),
                        entry@,
                    )
                } else {
                    r == Err::<(), StoreError>(StoreError::DuplicateLabel) && final(self)@.records
                        == old(self)@.records
                }
            } else {
                r is Ok && final(self)@.records == old(self)@.records.push(entry@)
            },
    {
        self.records.insert(entry, overwrite)
    }

    /// Replaces the entry of the same label; see [`RecordStore::update`].
    pub fn update(&mut self, entry: CredentialEntry) -> (r: Result<(), StoreError>)
        requires
            old(self).well_formed(),
        ensures
            final(self).well_formed(),
            final(self)@ == (SessionView { records: final(self)@.records, ..old(self)@ }),
            if has_label(old(self)@.records, entry@.label) {
                r is Ok && final(self)@.records == old(self)@.records.update(
                    position(old(self)@.records, entry@.label),
                    entry@,
                )
            } else {
                r == Err::<(), StoreError>(StoreError::LabelNotFound) && final(self)@.records
                    == old(self)@.records
            },
    {
        self.records.update(entry)
    }

    /// Takes the entry labelled `label` out; see [`RecordStore::remove`].
    pub fn remove(&mut self, label: &str) -> (r: Option<CredentialEntry>)
        requires
            old(self).well_formed(),
        ensures
            final(self).well_formed(),
            final(self)@ == (SessionView { records: final(self)@.records, ..old(self)@ }),
            if has_label(old(self)@.records, label@) {
                r matches Some(e) && e@ == old(self)@.records[position(old(self)@.records, label@)]
                    && final(self)@.records == old(self)@.records.remove(
                    position(old(self)@.records, label@),
                )
            } else {
                r is None && final(self)@.records == old(self)@.records
            },
    {
        self.records.remove(label)
    }

    /// Erases the key and every record; the metadata and the save counter
    /// stay.
    pub fn wipe(&mut self)
        ensures
            final(self)@ == erased(old(self)@),
    {
        self.key.wipe();
        self.records.wipe();
        assert(self@.key.key =~= Seq::<u8>::empty());
        assert(self@.key.verifier =~= Seq::<u8>::empty());
    }
}

impl Storage {
    /// Unlocks the vault with the master password.
    ///
    /// A vault written for another executable version is refused before any
    /// key is derived, and so is one whose stored fields are out of range.
    /// A file that holds no vault yet gives the session of a new vault under
    /// this password.
    pub fn unlock(&self, password: &str, executable_version: u32) -> (r: Result<Session, VaultErr>)
        requires
            self.well_formed(),
            self.parsed() is Some,
        ensures
            match self.container() {
                Container::Stored(h, p) => match unlock_spec(
                    h,
                    p,
                    encode_utf8(password@),
                    executable_version,
                ) {
                    Err(e) => r == Err::<Session, VaultErr>(e),
                    Ok(view) => r matches Ok(s) && s@ == view && s.well_formed(),
                },
                Container::Fresh => created_outcome(r, encode_utf8(password@)),
            },
    {
        if self.is_fresh() {
            return Session::create(password);
        }
        match self.admission(executable_version) {
            Err(e) => { return Err(e); },
            Ok(()) => {},
        }
        let (metadata, payload) = match (self.metadata(), self.payload()) {
            (Some(m), Some(p)) => match m.to_owned(self.data()) {
                Some(metadata) => (metadata, p.to_owned(self.data())),
                None => { return Err(VaultErr::Format(FormatError::Corrupt)); },
            },
            _ => { return Err(VaultErr::Format(FormatError::Corrupt)); },
        };
        let key = match crate::kdf::derive(password, metadata.salt.as_slice(), &metadata.kdf) {
            None => { return Err(VaultErr::Auth(AuthError::WrongPassword)); },
            Some(key) => key,
        };
        Session::unseal(metadata, &payload, key)
    }
}

/// What sealing yields can be opened again. Where a valid, sealable session
/// is sealed under a random part of full length, and the cipher gives a
/// payload that its own key opens to the plaintext, the file decodes to the
/// session's metadata and that payload, and the session's key opens it to
/// the session as it is found again after a save.
pub proof fn lemma_sealed_reopens(s: SessionView, random: Seq<u8>)
    requires
        session_valid(s),
        sealable(s),
        random.len() == NONCE_RANDOM_LEN,
        sealed_payload(s, random) matches Some(p) && p.tag.len() == TAG_LEN && p.ciphertext.len()
            == encode_records(s.records).len() && decrypt_spec(
            s.key.key,
            p.nonce,
            p.ciphertext,
            p.tag,
            encode_header(s.metadata),
        ) == Ok::<Seq<u8>, AuthError>(encode_records(s.records)),
    ensures
        seal_spec(s, random) matches Ok(bytes) && reopens(s, random, bytes),
{
    let p = sealed_payload(s, random).unwrap();
    lemma_nonce_sequence((s.sequence + 1) as u64, random);
    assert(p.nonce.len() == NONCE_LEN);
    assert(well_sized(s.metadata, p));
    lemma_decode_encode(s.metadata, p);
    lemma_records_round_trip(s.records);
    assert(unseal_spec(s.metadata, p, s.key) == Ok::<SessionView, VaultErr>(after_save(s)));
    assert(unlocks_again(s, p));
}

/// Unlocking what was saved gives back what was saved. Take the session
/// of a new vault under a password, put any records with distinct labels
/// into it, and seal it: the file decodes to a stored vault, and the same
/// password unlocks it, under every executable version, to exactly those
/// records in the same order.
pub proof fn lemma_round_trip(
    password: Seq<u8>,
    salt: Seq<u8>,
    params: KdfParams,
    records: Seq<Entry>,
    random: Seq<u8>,
    bytes: Seq<u8>,
    version: u32,
)
    requires
        create_spec(password, salt, params) is Ok,
        reopens(
            SessionView { records, ..create_spec(password, salt, params).unwrap() },
            random,
            bytes,
        ),
    ensures
        decode_spec(bytes) matches Ok(Container::Stored(h, p)) && (unlock_spec(
            h,
            p,
            password,
            version,
        ) matches Ok(found) && found.records == records),
{
    let s = SessionView { records, ..create_spec(password, salt, params).unwrap() };
    let p = sealed_payload(s, random).unwrap();
    assert(derive_spec(password, s.metadata.salt, s.metadata.kdf) == Some(s.key));
    assert(s.metadata.compatible_version.admits(version));
}

/// A password from which no key or a key with another verifier is derived
/// never unlocks a vault: it is refused as a wrong password, and no record
/// is given out.
pub proof fn lemma_wrong_password(h: Header, p: Sealed, password: Seq<u8>, version: u32)
    requires
        admission_spec(Container::Stored(h, p), version) is Ok,
        derive_spec(password, h.salt, h.kdf) matches Some(key) ==> key.verifier != h.verifier,
    ensures
        unlock_spec(h, p, password, version) == Err::<SessionView, VaultErr>(
            VaultErr::Auth(AuthError::WrongPassword),
        ),
{
}

/// A payload that does not authenticate is refused exactly as a wrong
/// password is: unlocking never reports another authentication failure, so
/// a caller cannot tell a changed ciphertext, tag, nonce or header from a
/// wrong password.
pub proof fn lemma_tampering_is_wrong_password(
    h: Header,
    p: Sealed,
    password: Seq<u8>,
    version: u32,
)
    ensures
        unlock_spec(h, p, password, version) matches Err(VaultErr::Auth(e)) ==> e
            == AuthError::WrongPassword,
        (admission_spec(Container::Stored(h, p), version) is Ok && (derive_spec(
            password,
            h.salt,
            h.kdf,
        ) matches Some(key) && decrypt_spec(
            key.key,
            p.nonce,
            p.ciphertext,
            p.tag,
            encode_header(h),
        ) is Err)) ==> unlock_spec(h, p, password, version) == Err::<SessionView, VaultErr>(
            VaultErr::Auth(AuthError::WrongPassword),
        ),
{
}

/// A vault that requires one executable version is refused under every
/// other, whatever the password: the verdict does not depend on any derived
/// key.
pub proof fn lemma_version_refusal(h: Header, p: Sealed, password: Seq<u8>, required: u32, version: u32)
    requires
        h.compatible_version == CompatibleVersion::One(required),
        required != version,
    ensures
        unlock_spec(h, p, password, version) == Err::<SessionView, VaultErr>(
            VaultErr::IncompatibleVersion { stored: required, executable: version },
        ),
{
}

/// Two consecutive saves never share a nonce: where a session is saved and
/// the session found after that save is saved again, the second file is
/// sealed under another nonce than the first, whatever the random parts.
pub proof fn lemma_consecutive_saves_differ(s: SessionView, random1: Seq<u8>, random2: Seq<u8>)
    requires
        seal_spec(s, random1) is Ok,
        seal_spec(after_save(s), random2) is Ok,
    ensures
        sealed_payload(s, random1) is Some,
        sealed_payload(after_save(s), random2) is Some,
        sealed_payload(s, random1).unwrap().nonce != sealed_payload(
            after_save(s),
            random2,
        ).unwrap().nonce,
{
    lemma_nonces_differ((s.sequence + 1) as u64, (s.sequence + 2) as u64, random1, random2);
}

} // verus!
