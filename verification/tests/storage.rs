use vault::codec::{encode, EncryptedPayload, Metadata};
use vault::error::{FormatError, VaultErr};
use vault::layout::{CompatibleVersion, KdfParams};
use vault::storage::{Storage, COMPATIBLE_VERSION};

fn stored(compatible_version: CompatibleVersion) -> Vec<u8> {
    let metadata = Metadata {
        format_version: 1,
        compatible_version,
        kdf: KdfParams { algorithm: 1, m_cost: 8, t_cost: 1, p_cost: 1 },
        salt: vec![3; 16],
        verifier: vec![4; 32],
    };
    let payload = EncryptedPayload { nonce: vec![5; 24], tag: vec![6; 16], ciphertext: vec![7; 9] };
    encode(&metadata, &payload).unwrap()
}

#[test]
fn new_storage_is_unparsed() {
    let storage = Storage::new(vec![1, 2, 3]);
    assert_eq!(storage.data(), &[1, 2, 3]);
    assert!(storage.metadata().is_none());
    assert!(storage.payload().is_none());
}

#[test]
fn an_absent_file_is_a_fresh_vault_for_every_executable() {
    let mut storage = Storage::new(Vec::new());
    assert_eq!(storage.load(), Ok(()));
    assert!(storage.is_fresh());
    assert_eq!(storage.metadata().unwrap().version(), CompatibleVersion::Any);
    assert!(storage.compatible(0));
    assert!(storage.compatible(u32::MAX));
    assert_eq!(storage.version(), COMPATIBLE_VERSION);
    assert_eq!(storage.admission(17), Ok(()));
}

#[test]
fn a_vault_for_any_version_is_compatible_with_all() {
    let storage = Storage::open(stored(CompatibleVersion::Any)).ok().unwrap();
    assert!(!storage.is_fresh());
    assert!(storage.compatible(0));
    assert!(storage.compatible(9));
    assert_eq!(storage.version(), 0);
}

#[test]
fn a_vault_for_one_version_is_compatible_with_that_only() {
    let storage = Storage::open(stored(CompatibleVersion::One(9))).ok().unwrap();
    assert!(storage.compatible(9));
    assert!(!storage.compatible(0));
    assert!(!storage.compatible(8));
    assert!(!storage.compatible(10));
    assert_eq!(storage.version(), 9);
    assert_eq!(storage.admission(9), Ok(()));
    assert_eq!(
        storage.admission(8),
        Err(VaultErr::IncompatibleVersion { stored: 9, executable: 8 })
    );
}

#[test]
fn a_corrupt_file_stays_unparsed() {
    let mut storage = Storage::new(vec![1, 2, 3]);
    assert_eq!(storage.load(), Err(FormatError::Corrupt));
    assert!(storage.metadata().is_none());
    assert_eq!(storage.data(), &[1, 2, 3]);
    assert_eq!(Storage::open(vec![0x56, 0x4C, 0x54]).err(), Some(FormatError::Corrupt));
}

#[test]
fn the_parsed_views_point_into_the_file() {
    let bytes = stored(CompatibleVersion::One(2));
    let storage = Storage::open(bytes.clone()).ok().unwrap();
    let meta = storage.metadata().unwrap();
    let raw = meta.stored.unwrap();
    assert_eq!(raw.salt.slice(storage.data()), &[3u8; 16]);
    assert_eq!(raw.password_hash.slice(storage.data()), &[4u8; 32]);
    let payload = storage.payload().unwrap();
    assert_eq!(payload.nonce.slice(storage.data()), &[5u8; 24]);
    assert_eq!(payload.metahash.slice(storage.data()), &[6u8; 16]);
    assert_eq!(payload.ciphertext.slice(storage.data()), &[7u8; 9]);
    assert_eq!(storage.data(), &bytes[..]);
}

#[test]
fn fields_of_the_wrong_size_are_corrupt_at_admission() {
    let metadata = Metadata {
        format_version: 1,
        compatible_version: CompatibleVersion::Any,
        kdf: KdfParams { algorithm: 1, m_cost: 8, t_cost: 1, p_cost: 1 },
        salt: vec![3; 16],
        verifier: vec![4; 31],
    };
    let payload = EncryptedPayload { nonce: vec![5; 24], tag: vec![6; 16], ciphertext: vec![] };
    let storage = Storage::open(encode(&metadata, &payload).unwrap()).ok().unwrap();
    assert_eq!(storage.admission(0), Err(VaultErr::Format(FormatError::Corrupt)));
    let short_nonce = EncryptedPayload { nonce: vec![5; 12], tag: vec![6; 16], ciphertext: vec![] };
    let fine = Metadata { verifier: vec![4; 32], ..metadata };
    let storage = Storage::open(encode(&fine, &short_nonce).unwrap()).ok().unwrap();
    assert_eq!(storage.admission(0), Err(VaultErr::Format(FormatError::Corrupt)));
}
