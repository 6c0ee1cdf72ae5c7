//! The entry point for a command line: what an invocation asks for, decided
//! from the arguments and the contents of the vault file.

use vstd::prelude::*;
use crate::error::{UserError, VaultErr};
use crate::layout::{decode_spec, CompatibleVersion, Container};
use crate::storage::{Storage, COMPATIBLE_VERSION};
use crate::vault::Vault;

verus! {

/// What an invocation asks for.
#[derive(Debug, PartialEq, Eq)]
pub enum Invocation {
    /// `vault <password>`: unlock and stay.
    Interactive { password: String },
    /// `vault <password> <command-arg>`: unlock, do one thing, leave.
    SingleShot { password: String, command: String },
}

/// What an invocation asks for, as plain text.
pub enum Request {
    Interactive { password: Seq<char> },
    SingleShot { password: Seq<char>, command: Seq<char> },
}

impl View for Invocation {
    type V = Request;

    open spec fn view(&self) -> Request {
        match self {
            Invocation::Interactive { password } => Request::Interactive { password: password@ },
            Invocation::SingleShot { password, command } => Request::SingleShot {
                password: password@,
                command: command@,
            },
        }
    }
}

/// The request that the arguments spell, the program's name included: two
/// arguments unlock, three run one command, every other number is misuse.
pub open spec fn dispatch_spec(args: Seq<String>) -> Result<Request, VaultErr> {
    if args.len() == 2 {
        Ok(Request::Interactive { password: args[1]@ })
    } else if args.len() == 3 {
        Ok(Request::SingleShot { password: args[1]@, command: args[2]@ })
    } else {
        Err(VaultErr::User(UserError::InvalidArguments))
    }
}

/// The versions that may open what the file holds.
pub open spec fn required_version(c: Container) -> CompatibleVersion {
    match c {
        Container::Fresh => CompatibleVersion::Any,
        Container::Stored(h, _) => h.compatible_version,
    }
}

/// Decides what an invocation asks for.
///
/// `args` are the arguments of the process, its name first; `contents` are
/// the bytes of the vault file, none for an absent file. The file is looked
/// at first: a corrupt file and a vault written for another executable
/// version are reported whatever the arguments are. Then the arguments are
/// counted. On success the vault is returned created or locked, ready for
/// the password.
pub fn parse_args(args: Vec<String>, contents: Vec<u8>) -> (r: Result<(Vault, Invocation), VaultErr>)
    ensures
        match decode_spec(contents@) {
            Err(e) => r == Err::<(Vault, Invocation), VaultErr>(VaultErr::Format(e)),
            Ok(c) => if !required_version(c).admits(COMPATIBLE_VERSION) {
                r == Err::<(Vault, Invocation), VaultErr>(
                    VaultErr::IncompatibleVersion {
                        stored: required_version(c).number(),
                        executable: COMPATIBLE_VERSION,
                    },
                )
            } else {
                match dispatch_spec(args@) {
                    Err(e) => r == Err::<(Vault, Invocation), VaultErr>(e),
                    Ok(request) => r matches Ok((vault, invocation)) && invocation@ == request
                        && vault.well_formed() && match c {
                        Container::Fresh => vault is Created,
                        Container::Stored(_, _) => vault matches Vault::Locked(storage)
                            && storage.bytes() == contents@ && storage.container() == c,
                    },
                }
            },
        },
{
    let storage = match Storage::open(contents) {
        Err(e) => { return Err(VaultErr::Format(e)); },
        Ok(storage) => storage,
    };
    if !storage.compatible(COMPATIBLE_VERSION) {
        return Err(
            VaultErr::IncompatibleVersion {
                stored: storage.version(),
                executable: COMPATIBLE_VERSION,
            },
        );
    }
    let invocation = if args.len() == 2 {
        Invocation::Interactive { password: args[1].clone() }
    } else if args.len() == 3 {
        Invocation::SingleShot { password: args[1].clone(), command: args[2].clone() }
    } else {
        return Err(VaultErr::User(UserError::InvalidArguments));
    };
    Ok((Vault::from_storage(storage), invocation))
}

} // verus!
