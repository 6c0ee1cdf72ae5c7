//! Core of a local password vault: a versioned, encrypted and authenticated
//! single-file container, and the state machine that opens, verifies, mutates
//! and persists it.
//!
//! The crate never touches the file system or the terminal. A caller hands it
//! the bytes of the vault file and the master password, and gets back either
//! an unlocked record set or a typed failure; on save it gets the new bytes of
//! the file.

pub mod cli;
pub mod codec;
pub mod crypto;
pub mod entropy;
pub mod error;
pub mod kdf;
pub mod layout;
pub mod memory;
pub mod plaintext;
pub mod records;
pub mod session;
pub mod storage;
pub mod vault;
pub mod wire;
