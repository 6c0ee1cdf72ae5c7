//! The failure kinds of the vault, each carrying only structured context.

use vstd::prelude::*;

verus! {

/// The vault file cannot be framed or read back.
#[derive(Clone, Copy, Debug, PartialEq, Eq, Structural)]
pub enum FormatError {
    /// Truncated input, a length field that disagrees with the buffer, an
    /// unknown format version, or a field that no vault can carry.
    Corrupt,
    /// The content is larger than the container format can frame.
    TooLarge,
}

/// Authentication failures.
#[derive(Clone, Copy, Debug, PartialEq, Eq, Structural)]
pub enum AuthError {
    /// What unlocking reports, whether the verifier did not match or the
    /// payload failed to authenticate.
    WrongPassword,
    /// What the crypto engine reports: one undifferentiated failure.
    TamperedOrWrongKey,
}

/// Record store failures; the store is unchanged when one is returned.
#[derive(Clone, Copy, Debug, PartialEq, Eq, Structural)]
pub enum StoreError {
    DuplicateLabel,
    LabelNotFound,
}

/// Misuse by the person at the command line.
#[derive(Clone, Copy, Debug, PartialEq, Eq, Structural)]
pub enum UserError {
    InvalidArguments,
}

/// What went wrong outside the process, as far as the core distinguishes it.
#[derive(Clone, Copy, Debug, PartialEq, Eq, Structural)]
pub enum IoFailure {
    NotFound,
    PermissionDenied,
    StorageFull,
    EntropyUnavailable,
    Other,
}

/// Every failure the vault can report.
#[derive(Clone, Copy, Debug, PartialEq, Eq, Structural)]
pub enum VaultErr {
    Io(IoFailure),
    Format(FormatError),
    IncompatibleVersion { stored: u32, executable: u32 },
    Auth(AuthError),
    Store(StoreError),
    ConcurrentAccess,
    User(UserError),
}

impl VaultErr {
    /// The process exit code for this failure: always 1.
    pub fn exit_code(&self) -> (code: u8)
        ensures
            code == 1,
    {
        1
    }

    /// Whether a usage line accompanies the message: only for misuse of the
    /// command line.
    pub fn wants_usage(&self) -> (usage: bool)
        ensures
            usage == (*self is User),
    {
        match self {
            VaultErr::User(_) => true,
            _ => false,
        }
    }
}

/// The exit code of an invocation: 0 on success, 1 on any failure.
pub fn exit_code<T>(outcome: &Result<T, VaultErr>) -> (code: u8)
    ensures
        code == (if outcome is Ok { 0u8 } else { 1u8 }),
{
    match outcome {
        Ok(_) => 0,
        Err(e) => e.exit_code(),
    }
}

} // verus!
