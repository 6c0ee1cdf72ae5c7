//! The vault file in memory: its bytes, and the view of its metadata once
//! they have been parsed.

use vstd::prelude::*;
use crate::codec::{decode, RawMetadata, RawPayload};
use crate::crypto::{NONCE_LEN, TAG_LEN};
use crate::error::{FormatError, VaultErr};
use crate::kdf::{salt_acceptable, KEY_LEN, MAX_SALT_LEN, MIN_SALT_LEN};
use crate::layout::{decode_spec, CompatibleVersion, Container, Header, Sealed, FORMAT_VERSION};

verus! {

/// The version that this executable reports.
pub const COMPATIBLE_VERSION: u32 = 0;

impl CompatibleVersion {
    /// Whether an executable of the given version may open the vault.
    pub open spec fn admits(self, executable_version: u32) -> bool {
        match self {
            CompatibleVersion::Any => true,
            CompatibleVersion::One(v) => v == executable_version,
        }
    }

    /// The version number to report: the required one, or this executable's
    /// own where any will do.
    pub open spec fn number(self) -> u32 {
        match self {
            CompatibleVersion::Any => COMPATIBLE_VERSION,
            CompatibleVersion::One(v) => v,
        }
    }
}

/// The stored vault is of the format version, and its fields have the sizes
/// and costs, that unlocking can work with.
pub open spec fn well_sized(h: Header, p: Sealed) -> bool {
    &&& h.format_version == FORMAT_VERSION
    &&& h.kdf.acceptable()
    &&& salt_acceptable(h.salt)
    &&& h.verifier.len() == KEY_LEN
    &&& p.nonce.len() == NONCE_LEN
    &&& p.tag.len() == TAG_LEN
}

/// What stands between a parsed vault and the key derivation: the
/// executable version first, then the sizes of the stored fields.
pub open spec fn admission_spec(c: Container, executable_version: u32) -> Result<(), VaultErr> {
    match c {
        Container::Fresh => Ok(()),
        Container::Stored(h, p) => if !h.compatible_version.admits(executable_version) {
            Err(
                VaultErr::IncompatibleVersion {
                    stored: h.compatible_version.number(),
                    executable: executable_version,
                },
            )
        } else if !well_sized(h, p) {
            Err(VaultErr::Format(FormatError::Corrupt))
        } else {
            Ok(())
        },
    }
}

/// The bytes of a vault file, with the view of its metadata once parsed.
pub struct Storage {
    metadata: Option<RawMetadata>,
    payload: Option<RawPayload>,
    data: Vec<u8>,
}

impl Storage {
    /// The bytes of the file.
    pub closed spec fn bytes(&self) -> Seq<u8> {
        self.data@
    }

    /// The parsed view of the metadata, if the file has been parsed.
    pub closed spec fn parsed(&self) -> Option<RawMetadata> {
        self.metadata
    }

    /// The parsed view of the payload, if the file has been parsed.
    pub closed spec fn parsed_payload(&self) -> Option<RawPayload> {
        self.payload
    }

    /// A parsed view belongs to the bytes and says what they decode to.
    pub open spec fn well_formed(&self) -> bool {
        match self.parsed() {
            None => self.parsed_payload() is None,
            Some(m) => self.parsed_payload() matches Some(p) && m.fits(self.bytes()) && p.fits(
                self.bytes(),
            ) && decode_spec(self.bytes()) == Ok::<Container, FormatError>(
                m.container(p, self.bytes()),
            ),
        }
    }

    /// What the file holds, once parsed.
    pub open spec fn container(&self) -> Container
        recommends
            self.parsed() is Some,
    {
        self.parsed().unwrap().container(self.parsed_payload().unwrap(), self.bytes())
    }

    /// Takes the contents of the vault file; an absent file is handed over
    /// as no bytes at all. Nothing is parsed yet.
    pub fn new(data: Vec<u8>) -> (storage: Storage)
        ensures
            storage.bytes() == data@,
            storage.parsed() is None,
            storage.well_formed(),
    {
        Storage { metadata: None, payload: None, data }
    }

    /// Parses the file. On failure the storage stays unparsed.
    pub fn load(&mut self) -> (r: Result<(), FormatError>)
        ensures
            final(self).bytes() == old(self).bytes(),
            final(self).well_formed(),
            match decode_spec(old(self).bytes()) {
                Err(e) => r == Err::<(), FormatError>(e) && final(self).parsed() is None,
                Ok(c) => r is Ok && final(self).parsed() is Some && final(self).container() == c,
            },
    {
        match decode(self.data.as_slice()) {
            Err(e) => {
                self.metadata = None;
                self.payload = None;
                Err(e)
            },
            Ok((m, p)) => {
                self.metadata = Some(m);
                self.payload = Some(p);
                Ok(())
            },
        }
    }

    /// Takes the contents of the vault file and parses them.
    pub fn open(data: Vec<u8>) -> (r: Result<Storage, FormatError>)
        ensures
            match decode_spec(data@) {
                Err(e) => r == Err::<Storage, FormatError>(e),
                Ok(c) => r matches Ok(storage) && storage.bytes() == data@ && storage.well_formed()
                    && storage.parsed() is Some && storage.container() == c,
            },
    {
        let mut storage = Storage::new(data);
        match storage.load() {
            Err(e) => Err(e),
            Ok(()) => Ok(storage),
        }
    }

    /// The bytes of the file.
    pub fn data(&self) -> (bytes: &[u8])
        ensures
            bytes@ == self.bytes(),
    {
        self.data.as_slice()
    }

    /// The parsed view of the metadata.
    pub fn metadata(&self) -> (m: Option<RawMetadata>)
        ensures
            m == self.parsed(),
    {
        self.metadata
    }

    /// The parsed view of the payload.
    pub fn payload(&self) -> (p: Option<RawPayload>)
        ensures
            p == self.parsed_payload(),
    {
        self.payload
    }

    /// Whether the file holds no vault yet.
    pub fn is_fresh(&self) -> (fresh: bool)
        requires
            self.well_formed(),
            self.parsed() is Some,
        ensures
            fresh == (self.container() is Fresh),
            fresh == (self.bytes().len() == 0),
    {
        match self.metadata {
            Some(m) => m.stored.is_none(),
            None => false,
        }
    }

    /// Whether an executable of the given version may open the vault: any
    /// may where the vault says so, else only the one it names.
    pub fn compatible(&self, executable_version: u32) -> (ok: bool)
        requires
            self.parsed() is Some,
        ensures
            ok == self.parsed().unwrap().compatible_version.admits(executable_version),
    {
        match self.metadata {
            Some(m) => match m.version() {
                CompatibleVersion::Any => true,
                CompatibleVersion::One(version) => version == executable_version,
            },
            None => false,
        }
    }

    /// The version the vault was written for: the one it requires, or this
    /// executable's own where it accepts any.
    pub fn version(&self) -> (v: u32)
        requires
            self.parsed() is Some,
        ensures
            v == self.parsed().unwrap().compatible_version.number(),
    {
        match self.metadata {
            Some(m) => match m.version() {
                CompatibleVersion::Any => COMPATIBLE_VERSION,
                CompatibleVersion::One(num) => num,
            },
            None => COMPATIBLE_VERSION,
        }
    }

    /// Decides, before any key is derived, whether unlocking may go on:
    /// refuses a vault written for another executable version, then one
    /// whose stored fields have sizes or costs that no vault of this format
    /// has.
    pub fn admission(&self, executable_version: u32) -> (r: Result<(), VaultErr>)
        requires
            self.well_formed(),
            self.parsed() is Some,
        ensures
            r == admission_spec(self.container(), executable_version),
    {
        let (m, p) = match (self.metadata, self.payload) {
            (Some(m), Some(p)) => (m, p),
            _ => { return Ok(()); },
        };
        let raw = match m.stored {
            None => { return Ok(()); },
            Some(raw) => raw,
        };
        if !self.compatible(executable_version) {
            return Err(
                VaultErr::IncompatibleVersion {
                    stored: self.version(),
                    executable: executable_version,
                },
            );
        }
        let salt_len = raw.salt.end - raw.salt.start;
        if raw.format_version != FORMAT_VERSION || !raw.kdf.is_acceptable() || salt_len
            < MIN_SALT_LEN || salt_len > MAX_SALT_LEN
            || raw.password_hash.end - raw.password_hash.start != KEY_LEN || p.nonce.end
            - p.nonce.start != NONCE_LEN || p.metahash.end - p.metahash.start != TAG_LEN {
            return Err(VaultErr::Format(FormatError::Corrupt));
        }
        Ok(())
    }
}

} // verus!
