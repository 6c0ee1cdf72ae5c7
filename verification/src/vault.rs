//! The life of a vault within one process: from nothing known, through the
//! file that was found, to an unlocked session and back to a locked file.
//!
//! ```text
//! Uninitialized -> Created | Locked      the file was read
//! Created | Locked -> Unlocked           the password was given
//! Unlocked -> Unlocked                   entries were added, changed, removed
//! Unlocked -> Locked                     the session was saved
//! any -> Terminated                      the process is about to exit
//! ```
//!
//! Reading and writing the file is the caller's part: it hands the bytes in
//! and, after a save, writes out the bytes of the locked vault.

use vstd::prelude::*;
use vstd::utf8::encode_utf8;
use crate::crypto::NONCE_RANDOM_LEN;
use crate::error::{FormatError, IoFailure, UserError, VaultErr};
use crate::kdf::NEW_SALT_LEN;
use crate::layout::{decode_spec, CompatibleVersion, Container, KdfParams};
use crate::session::{create_spec, erased, reopens, seal_spec, sealable, unlock_spec};
use crate::session::{Session, SessionView};
use crate::storage::Storage;

verus! {

/// A vault and the state it is in.
pub enum Vault {
    /// Nothing is known yet: the file has not been read.
    Uninitialized,
    /// There is no vault file: an empty vault, open to every executable,
    /// waits for its first password.
    Created,
    /// The file was read and parsed; its records are sealed.
    Locked(Storage),
    /// The records are in memory, with the key that seals them.
    Unlocked(Session),
    /// The process is leaving; every secret was erased.
    Terminated,
}

impl Vault {
    /// The invariant of each state: a locked vault holds a parsed file with
    /// a stored vault in it, an unlocked one a valid session.
    pub open spec fn well_formed(&self) -> bool {
        match self {
            Vault::Locked(storage) => storage.well_formed() && storage.parsed() is Some
                && storage.container() is Stored,
            Vault::Unlocked(session) => session.well_formed(),
            _ => true,
        }
    }

    /// A vault of which nothing is known yet.
    pub fn new() -> (vault: Vault)
        ensures
            vault is Uninitialized,
    {
        Vault::Uninitialized
    }

    /// The state that a parsed file puts the vault in: `Created` for a file
    /// that holds nothing, `Locked` for a stored vault.
    pub fn from_storage(storage: Storage) -> (vault: Vault)
        requires
            storage.well_formed(),
            storage.parsed() is Some,
        ensures
            vault.well_formed(),
            match storage.container() {
                Container::Fresh => vault is Created,
                Container::Stored(_, _) => vault == Vault::Locked(storage),
            },
    {
        if storage.is_fresh() {
            Vault::Created
        } else {
            Vault::Locked(storage)
        }
    }

    /// Takes the contents of the vault file; an absent file is handed over
    /// as no bytes at all and gives a created vault. A file that cannot be
    /// parsed is corrupt, and the vault stays uninitialized.
    pub fn open(&mut self, contents: Vec<u8>) -> (r: Result<(), VaultErr>)
        requires
            *old(self) is Uninitialized,
        ensures
            final(self).well_formed(),
            match decode_spec(contents@) {
                Err(e) => r == Err::<(), VaultErr>(VaultErr::Format(e)) && *final(self)
                    is Uninitialized,
                Ok(Container::Fresh) => r is Ok && *final(self) is Created,
                Ok(Container::Stored(h, p)) => r is Ok && (*final(self) matches Vault::Locked(
                    storage,
                ) && storage.bytes() == contents@ && storage.container() == Container::Stored(
                    h,
                    p,
                )),
            },
    {
        match Storage::open(contents) {
            Err(e) => Err(VaultErr::Format(e)),
            Ok(storage) => {
                *self = Vault::from_storage(storage);
                Ok(())
            },
        }
    }

    /// Which executables may open the vault, as far as that is known: every
    /// one for a vault that was never saved.
    pub fn compatible_version(&self) -> (v: Option<CompatibleVersion>)
        requires
            self.well_formed(),
        ensures
            match self {
                Vault::Created => v == Some(CompatibleVersion::Any),
                Vault::Locked(storage) => v == Some(
                    storage.parsed().unwrap().compatible_version,
                ),
                Vault::Unlocked(session) => v == Some(session@.metadata.compatible_version),
                _ => v is None,
            },
    {
        match self {
            Vault::Created => Some(CompatibleVersion::Any),
            Vault::Locked(storage) => match storage.metadata() {
                Some(m) => Some(m.version()),
                None => None,
            },
            Vault::Unlocked(session) => Some(session.metadata().compatible_version),
            _ => None,
        }
    }

    /// The bytes of the vault file, while the vault is locked: after a save,
    /// what the caller has to write.
    pub fn contents(&self) -> (bytes: Option<&[u8]>)
        ensures
            match self {
                Vault::Locked(storage) => bytes matches Some(b) && b@ == storage.bytes(),
                _ => bytes is None,
            },
    {
        match self {
            Vault::Locked(storage) => Some(storage.data()),
            _ => None,
        }
    }

    /// Unlocks the vault with the master password.
    ///
    /// A created vault becomes the session of a new vault under this
    /// password; that fails only where the operating system has no
    /// randomness for the salt, or for a password of more than `u32::MAX`
    /// bytes. A locked vault is unlocked as [`Storage::unlock`] says. On
    /// failure the vault stays as it was.
    pub fn unlock(&mut self, password: &str, executable_version: u32) -> (r: Result<(), VaultErr>)
        requires
            *old(self) is Created || *old(self) is Locked,
            old(self).well_formed(),
        ensures
            final(self).well_formed(),
            r is Err ==> *final(self) == *old(self),
            r is Ok ==> *final(self) is Unlocked,
            match *old(self) {
                Vault::Locked(storage) => storage.container() matches Container::Stored(h, p)
                    && match unlock_spec(h, p, encode_utf8(password@), executable_version) {
                    Err(e) => r == Err::<(), VaultErr>(e),
                    Ok(view) => r is Ok && final(self)->Unlocked_0@ == view,
                },
                _ => match r {
                    Ok(_) => final(self)->Unlocked_0@.metadata.salt.len() == NEW_SALT_LEN
                        && create_spec(
                        encode_utf8(password@),
                        final(self)->Unlocked_0@.metadata.salt,
                        KdfParams::recommended_spec(),
                    ) == Ok::<SessionView, VaultErr>(final(self)->Unlocked_0@),
                    Err(e) => e == VaultErr::Io(IoFailure::EntropyUnavailable) || (e
                        == VaultErr::User(UserError::InvalidArguments) && encode_utf8(
                        password@,
                    ).len() > u32::MAX),
                },
            },
    {
        let opened = match self {
            Vault::Locked(storage) => storage.unlock(password, executable_version),
            _ => Session::create(password),
        };
        match opened {
            Err(e) => Err(e),
            Ok(session) => {
                *self = Vault::Unlocked(session);
                Ok(())
            },
        }
    }

    /// Saves the session under a nonce with the given random part and locks
    /// the vault: the key and the records are erased, and the vault holds
    /// the bytes of the new file. On failure the vault stays unlocked and
    /// unchanged.
    pub fn save_with(&mut self, random: &[u8]) -> (r: Result<(), VaultErr>)
        requires
            *old(self) is Unlocked,
            old(self).well_formed(),
        ensures
            final(self).well_formed(),
            match seal_spec(old(self)->Unlocked_0@, random@) {
                Err(e) => r == Err::<(), VaultErr>(e) && *final(self) == *old(self),
                Ok(bytes) => r is Ok && (*final(self) matches Vault::Locked(storage)
                    && storage.bytes() == bytes && reopens(old(self)->Unlocked_0@, random@, bytes)),
            },
    {
        let sealed = match self {
            Vault::Unlocked(session) => session.seal_with(random),
            _ => Err(VaultErr::User(UserError::InvalidArguments)),
        };
        self.lock_with(sealed)
    }

    /// Saves the session under a nonce with a fresh random part and locks
    /// the vault. Whatever the operating system gives as the random part,
    /// the vault ends as [`Vault::save_with`] says for it. A session that
    /// can be sealed is saved unless the operating system has no randomness.
    pub fn save(&mut self) -> (r: Result<(), VaultErr>)
        requires
            *old(self) is Unlocked,
            old(self).well_formed(),
        ensures
            final(self).well_formed(),
            match r {
                Ok(_) => *final(self) matches Vault::Locked(storage) && exists|random: Seq<u8>|
                    random.len() == NONCE_RANDOM_LEN && #[trigger] seal_spec(
                        old(self)->Unlocked_0@,
                        random,
                    ) == Ok::<Seq<u8>, VaultErr>(storage.bytes()) && reopens(
                        old(self)->Unlocked_0@,
                        random,
                        storage.bytes(),
                    ),
                Err(e) => *final(self) == *old(self) && if sealable(old(self)->Unlocked_0@) {
                    e == VaultErr::Io(IoFailure::EntropyUnavailable)
                } else {
                    e == VaultErr::Io(IoFailure::EntropyUnavailable) || e == VaultErr::Format(
                        FormatError::TooLarge,
                    )
                },
            },
    {
        let sealed = match self {
            Vault::Unlocked(session) => session.seal(),
            _ => Err(VaultErr::User(UserError::InvalidArguments)),
        };
        self.lock_with(sealed)
    }

    /// Ends a save: with the bytes of the new file, erases the session and
    /// locks the vault; with a failure, leaves the vault as it is.
    fn lock_with(&mut self, sealed: Result<Vec<u8>, VaultErr>) -> (r: Result<(), VaultErr>)
        requires
            *old(self) is Unlocked,
            old(self).well_formed(),
            sealed matches Ok(v) ==> decode_spec(v@) matches Ok(Container::Stored(_, _)),
        ensures
            final(self).well_formed(),
            match sealed {
                Err(e) => r == Err::<(), VaultErr>(e) && *final(self) == *old(self),
                Ok(v) => r is Ok && (*final(self) matches Vault::Locked(storage) && storage.bytes()
                    == v@),
            },
    {
        let bytes = match sealed {
            Err(e) => { return Err(e); },
            Ok(bytes) => bytes,
        };
        let storage = match Storage::open(bytes) {
            Err(e) => { return Err(VaultErr::Format(e)); },
            Ok(storage) => storage,
        };
        self.erase();
        *self = Vault::Locked(storage);
        Ok(())
    }

    /// Erases the secrets of an unlocked session: its key and its records
    /// are gone, its metadata and save counter stay. Every other state holds
    /// no secret and stays as it is.
    fn erase(&mut self)
        ensures
            match *old(self) {
                Vault::Unlocked(session) => *final(self) matches Vault::Unlocked(left) && left@
                    == erased(session@),
                _ => *final(self) == *old(self),
            },
    {
        match self {
            Vault::Unlocked(session) => {
                session.wipe();
            },
            _ => {},
        }
    }

    /// Leaves: erases the key and the records if the vault is unlocked, and
    /// ends in `Terminated` from every state.
    pub fn terminate(&mut self)
        ensures
            *final(self) is Terminated,
    {
        self.erase();
        *self = Vault::Terminated;
    }
}

} // verus!
