use vault::codec::{decode, EncryptedPayload, Metadata};
use vault::crypto::decrypt;
use vault::error::{AuthError, FormatError, StoreError, UserError, VaultErr};
use vault::kdf::DerivedKey;
use vault::layout::{CompatibleVersion, KdfParams};
use vault::plaintext::serialize;
use vault::records::CredentialEntry;
use vault::session::Session;
use vault::storage::Storage;

const CHEAP: KdfParams = KdfParams { algorithm: 1, m_cost: 8, t_cost: 1, p_cost: 1 };

fn salt16() -> Vec<u8> {
    (1u8..=16).collect()
}

fn entry(label: &str, secret: &[u8]) -> CredentialEntry {
    CredentialEntry {
        label: label.to_string(),
        secret: secret.to_vec(),
        username: Some(format!("user of {}", label)),
        notes: None,
    }
}

fn filled_session(password: &str) -> Session {
    let mut session = Session::create_with(password, salt16(), CHEAP).ok().unwrap();
    session.insert(entry("mail", b"one"), false).unwrap();
    session.insert(entry("bank", b"two"), false).unwrap();
    session.insert(entry("forum", b"three"), false).unwrap();
    session
}

fn parsed(bytes: Vec<u8>) -> Storage {
    Storage::open(bytes).ok().unwrap()
}

fn parts(bytes: &[u8]) -> (Metadata, EncryptedPayload) {
    let (meta, payload) = decode(bytes).unwrap();
    (meta.to_owned(bytes).unwrap(), payload.to_owned(bytes))
}

fn same_key(session_password: &str) -> DerivedKey {
    vault::kdf::derive(session_password, &salt16(), &CHEAP).unwrap()
}

#[test]
fn a_new_session_is_empty_and_open_to_every_executable() {
    let session = Session::create_with("pw", salt16(), CHEAP).ok().unwrap();
    assert!(session.list().is_empty());
    let metadata = session.metadata();
    assert_eq!(metadata.format_version, 1);
    assert_eq!(metadata.compatible_version, CompatibleVersion::Any);
    assert_eq!(metadata.kdf, CHEAP);
    assert_eq!(metadata.salt, salt16());
    assert_eq!(metadata.verifier, same_key("pw").verifier_bytes().to_vec());
}

#[test]
fn create_with_refuses_what_no_key_can_be_derived_from() {
    let bad_salt = Session::create_with("pw", vec![0; 7], CHEAP).err();
    assert_eq!(bad_salt, Some(VaultErr::User(UserError::InvalidArguments)));
    let bad_cost = Session::create_with("pw", salt16(), KdfParams { t_cost: 0, ..CHEAP }).err();
    assert_eq!(bad_cost, Some(VaultErr::User(UserError::InvalidArguments)));
}

#[test]
fn create_draws_a_salt_of_16_bytes_and_the_recommended_cost() {
    let session = Session::create("pw").ok().unwrap();
    assert_eq!(session.metadata().salt.len(), 16);
    assert_eq!(session.metadata().kdf, KdfParams::recommended());
    assert_eq!(session.metadata().compatible_version, CompatibleVersion::Any);
    assert!(session.list().is_empty());
}

#[test]
fn saved_records_come_back_in_order() {
    let mut session = filled_session("correct horse");
    let bytes = session.seal_with(&[7; 16]).unwrap();
    let reopened = parsed(bytes).unlock("correct horse", 0).ok().unwrap();
    assert_eq!(reopened.list(), session.list());
    assert_eq!(reopened.metadata(), session.metadata());
    assert_eq!(reopened.list()[0].label, "mail");
    assert_eq!(reopened.list()[2].secret, b"three".to_vec());
}

#[test]
fn an_empty_session_comes_back_empty() {
    let mut session = Session::create_with("pw", salt16(), CHEAP).ok().unwrap();
    let bytes = session.seal_with(&[0; 16]).unwrap();
    let reopened = parsed(bytes).unlock("pw", 3).ok().unwrap();
    assert!(reopened.list().is_empty());
}

#[test]
fn the_file_holds_header_nonce_tag_and_ciphertext() {
    let mut session = filled_session("pw");
    let bytes = session.seal_with(&[0xAB; 16]).unwrap();
    let (meta, payload) = decode(&bytes).unwrap();
    assert_eq!(&meta.to_owned(&bytes).unwrap(), session.metadata());
    let owned = payload.to_owned(&bytes);
    let mut nonce = vec![0, 0, 0, 0, 0, 0, 0, 1];
    nonce.extend_from_slice(&[0xAB; 16]);
    assert_eq!(owned.nonce, nonce);
    assert_eq!(owned.tag.len(), 16);
    let plaintext = serialize(&{
        let mut s = vault::records::RecordStore::new();
        for label in ["mail", "bank", "forum"] {
            let secret: &[u8] = match label {
                "mail" => b"one",
                "bank" => b"two",
                _ => b"three",
            };
            s.insert(entry(label, secret), false).unwrap();
        }
        s
    }).unwrap();
    assert_eq!(owned.ciphertext.len(), plaintext.len());
    assert_ne!(owned.ciphertext, plaintext);
    let header = &bytes[..meta.stored.unwrap().end];
    assert_eq!(
        decrypt(&same_key("pw"), &owned.nonce, &owned.ciphertext, &owned.tag, header),
        Ok(plaintext)
    );
}

#[test]
fn the_save_counter_goes_up_with_every_save() {
    let mut session = filled_session("pw");
    let first = session.seal_with(&[1; 16]).unwrap();
    let mut reopened = parsed(first.clone()).unlock("pw", 0).ok().unwrap();
    let second = reopened.seal_with(&[1; 16]).unwrap();
    let n1 = decode(&first).unwrap().1.to_owned(&first);
    let n2 = decode(&second).unwrap().1.to_owned(&second);
    assert_eq!(&n1.nonce[..8], &[0, 0, 0, 0, 0, 0, 0, 1]);
    assert_eq!(&n2.nonce[..8], &[0, 0, 0, 0, 0, 0, 0, 2]);
    assert_ne!(n1.nonce, n2.nonce);
    assert_ne!(n1.ciphertext, n2.ciphertext);
    assert_ne!(n1.tag, n2.tag);
}

#[test]
fn saves_with_fresh_randomness_differ() {
    let mut session = filled_session("pw");
    let first = session.seal().unwrap();
    let second = session.seal().unwrap();
    let n1 = decode(&first).unwrap().1.to_owned(&first);
    let n2 = decode(&second).unwrap().1.to_owned(&second);
    assert_eq!(&n1.nonce[..8], &[0, 0, 0, 0, 0, 0, 0, 1]);
    assert_eq!(&n2.nonce[..8], &[0, 0, 0, 0, 0, 0, 0, 2]);
    assert_ne!(n1.nonce[8..], n2.nonce[8..]);
    assert_ne!(n1.nonce, n2.nonce);
    assert_ne!(n1.ciphertext, n2.ciphertext);
    assert_eq!(parsed(first).unlock("pw", 0).ok().unwrap().list(), session.list());
    assert_eq!(parsed(second).unlock("pw", 0).ok().unwrap().list(), session.list());
}

#[test]
fn a_random_part_of_the_wrong_length_is_refused() {
    let mut session = filled_session("pw");
    assert_eq!(session.seal_with(&[0; 15]), Err(VaultErr::User(UserError::InvalidArguments)));
    assert_eq!(session.seal_with(&[0; 17]), Err(VaultErr::User(UserError::InvalidArguments)));
    let bytes = session.seal_with(&[0; 16]).unwrap();
    let payload = decode(&bytes).unwrap().1.to_owned(&bytes);
    assert_eq!(&payload.nonce[..8], &[0, 0, 0, 0, 0, 0, 0, 1]);
}

#[test]
fn two_seals_of_one_session_count_two_saves() {
    let mut session = filled_session("pw");
    let first = session.seal_with(&[9; 16]).unwrap();
    let second = session.seal_with(&[9; 16]).unwrap();
    let third = session.seal_with(&[9; 16]).unwrap();
    let p1 = decode(&first).unwrap().1.to_owned(&first);
    let p2 = decode(&second).unwrap().1.to_owned(&second);
    let p3 = decode(&third).unwrap().1.to_owned(&third);
    assert_eq!(p1.nonce, vault::crypto::make_nonce(1, &[9; 16]));
    assert_eq!(p2.nonce, vault::crypto::make_nonce(2, &[9; 16]));
    assert_eq!(p3.nonce, vault::crypto::make_nonce(3, &[9; 16]));
    assert_ne!(p1.ciphertext, p2.ciphertext);
    assert_ne!(p2.ciphertext, p3.ciphertext);
    assert_ne!(p1.tag, p2.tag);
    for bytes in [first, second, third] {
        assert_eq!(parsed(bytes).unlock("pw", 0).ok().unwrap().list(), session.list());
    }
}

#[test]
fn a_wrong_password_is_refused() {
    let bytes = filled_session("right").seal_with(&[7; 16]).unwrap();
    let storage = parsed(bytes);
    for wrong in ["", "Right", "right ", "righ", "wrong"] {
        assert_eq!(
            storage.unlock(wrong, 0).err(),
            Some(VaultErr::Auth(AuthError::WrongPassword))
        );
    }
    assert!(storage.unlock("right", 0).is_ok());
}

#[test]
fn a_key_with_another_verifier_opens_nothing() {
    let bytes = filled_session("right").seal_with(&[7; 16]).unwrap();
    let right = same_key("right");
    let forged = DerivedKey::from_parts(right.key_bytes().to_vec(), vec![0; 32]).unwrap();
    let (metadata, payload) = parts(&bytes);
    assert_eq!(
        Session::unseal(metadata, &payload, forged).err(),
        Some(VaultErr::Auth(AuthError::WrongPassword))
    );
    let half = DerivedKey::from_parts(vec![0; 32], right.verifier_bytes().to_vec()).unwrap();
    let (metadata, payload) = parts(&bytes);
    assert_eq!(
        Session::unseal(metadata, &payload, half).err(),
        Some(VaultErr::Auth(AuthError::WrongPassword))
    );
    let (metadata, payload) = parts(&bytes);
    let session = Session::unseal(metadata, &payload, right).ok().unwrap();
    assert_eq!(session.list(), filled_session("right").list());
}

#[test]
fn a_flipped_bit_in_the_payload_reads_as_a_wrong_password() {
    let bytes = filled_session("right").seal_with(&[7; 16]).unwrap();
    let header_end = decode(&bytes).unwrap().0.stored.unwrap().end;
    let first_nonce_byte = header_end + 4;
    let first_tag_byte = first_nonce_byte + 24 + 4;
    let first_cipher_byte = first_tag_byte + 16 + 4;
    let mut positions: Vec<usize> = (first_nonce_byte..first_nonce_byte + 24).collect();
    positions.extend(first_tag_byte..first_tag_byte + 16);
    positions.extend(first_cipher_byte..bytes.len());
    let key = same_key("right");
    for at in positions {
        for bit in 0..8 {
            let mut changed = bytes.clone();
            changed[at] ^= 1 << bit;
            let (metadata, payload) = parts(&changed);
            let again =
                DerivedKey::from_parts(key.key_bytes().to_vec(), key.verifier_bytes().to_vec())
                    .unwrap();
            assert_eq!(
                Session::unseal(metadata, &payload, again).err(),
                Some(VaultErr::Auth(AuthError::WrongPassword))
            );
        }
    }
}

#[test]
fn a_flipped_bit_in_salt_or_verifier_reads_as_a_wrong_password() {
    let bytes = filled_session("right").seal_with(&[7; 16]).unwrap();
    let raw = decode(&bytes).unwrap().0.stored.unwrap();
    let mut positions: Vec<usize> = (raw.salt.start..raw.salt.end).collect();
    positions.extend(raw.password_hash.start..raw.password_hash.end);
    for at in positions {
        let mut changed = bytes.clone();
        changed[at] ^= 0x10;
        assert_eq!(
            parsed(changed).unlock("right", 0).err(),
            Some(VaultErr::Auth(AuthError::WrongPassword))
        );
    }
}

#[test]
fn a_flipped_bit_anywhere_never_unlocks() {
    let bytes = filled_session("right").seal_with(&[7; 16]).unwrap();
    for at in 0..bytes.len() {
        let mut changed = bytes.clone();
        changed[at] ^= 0x01;
        let outcome = match Storage::open(changed) {
            Err(e) => Err(VaultErr::Format(e)),
            Ok(storage) => storage.unlock("right", 0).map(|_| ()),
        };
        match outcome {
            Err(VaultErr::Format(FormatError::Corrupt)) => {},
            Err(VaultErr::Auth(AuthError::WrongPassword)) => {},
            Err(VaultErr::IncompatibleVersion { .. }) => {},
            other => panic!("byte {} gave {:?}", at, other),
        }
    }
}

#[test]
fn a_payload_spliced_under_another_header_is_refused() {
    let mut one = filled_session("right");
    let first = one.seal_with(&[7; 16]).unwrap();
    let mut other = Session::create_with("right", salt16(), CHEAP).ok().unwrap();
    other.insert(entry("mail", b"one"), false).unwrap();
    let second = other.seal_with(&[7; 16]).unwrap();
    let end1 = decode(&first).unwrap().0.stored.unwrap().end;
    let end2 = decode(&second).unwrap().0.stored.unwrap().end;
    assert_eq!(&first[..end1], &second[..end2]);
    let mut strict = first[..end1].to_vec();
    strict[8] = 1;
    strict.splice(9..9, [0, 0, 0, 0]);
    strict.extend_from_slice(&first[end1..]);
    assert_eq!(
        parsed(strict).unlock("right", 0).err(),
        Some(VaultErr::Auth(AuthError::WrongPassword))
    );
}

#[test]
fn another_executable_version_is_refused_before_the_password_counts() {
    let bytes = filled_session("right").seal_with(&[7; 16]).unwrap();
    let end = decode(&bytes).unwrap().0.stored.unwrap().end;
    let mut strict = bytes[..end].to_vec();
    strict[8] = 1;
    strict.splice(9..9, [0, 0, 0, 5]);
    strict.extend_from_slice(&bytes[end..]);
    let storage = parsed(strict);
    let refusal = Some(VaultErr::IncompatibleVersion { stored: 5, executable: 4 });
    assert_eq!(storage.admission(4), Err(VaultErr::IncompatibleVersion { stored: 5, executable: 4 }));
    assert_eq!(storage.unlock("right", 4).err(), refusal);
    assert_eq!(storage.unlock("wrong", 4).err(), refusal);
    assert_eq!(storage.admission(5), Ok(()));
    assert_eq!(storage.unlock("wrong", 5).err(), Some(VaultErr::Auth(AuthError::WrongPassword)));
}

#[test]
fn stored_fields_out_of_range_are_corrupt() {
    let bytes = filled_session("right").seal_with(&[7; 16]).unwrap();
    let mut zero_passes = bytes.clone();
    zero_passes[17] = 0;
    assert_eq!(
        parsed(zero_passes).unlock("right", 0).err(),
        Some(VaultErr::Format(FormatError::Corrupt))
    );
    let mut huge_memory = bytes.clone();
    huge_memory[10] = 0x7F;
    let storage = parsed(huge_memory);
    assert_eq!(storage.admission(0), Err(VaultErr::Format(FormatError::Corrupt)));
    assert_eq!(storage.unlock("right", 0).err(), Some(VaultErr::Format(FormatError::Corrupt)));
    let mut unknown_algorithm = bytes.clone();
    unknown_algorithm[9] = 9;
    assert_eq!(
        parsed(unknown_algorithm).unlock("right", 0).err(),
        Some(VaultErr::Format(FormatError::Corrupt))
    );
}

#[test]
fn unseal_refuses_fields_of_the_wrong_size() {
    let bytes = filled_session("right").seal_with(&[7; 16]).unwrap();
    let (metadata, payload) = parts(&bytes);
    let short = EncryptedPayload { nonce: payload.nonce[..12].to_vec(), ..payload };
    assert_eq!(
        Session::unseal(metadata, &short, same_key("right")).err(),
        Some(VaultErr::Format(FormatError::Corrupt))
    );
    let (metadata, payload) = parts(&bytes);
    let other_format = Metadata { format_version: 2, ..metadata };
    assert_eq!(
        Session::unseal(other_format, &payload, same_key("right")).err(),
        Some(VaultErr::Format(FormatError::Corrupt))
    );
}

#[test]
fn an_authentic_payload_that_is_no_record_set_is_corrupt() {
    let session = Session::create_with("right", salt16(), CHEAP).ok().unwrap();
    let key = same_key("right");
    let header = vault::codec::header_bytes(session.metadata()).unwrap();
    let nonce = vault::crypto::make_nonce(1, &[0; 16]);
    let (ciphertext, tag) = vault::crypto::encrypt(&key, &nonce, &[0, 0, 0, 1], &header).unwrap();
    let payload = EncryptedPayload { nonce, tag, ciphertext };
    let metadata = Metadata {
        format_version: 1,
        compatible_version: CompatibleVersion::Any,
        kdf: CHEAP,
        salt: salt16(),
        verifier: key.verifier_bytes().to_vec(),
    };
    assert_eq!(
        Session::unseal(metadata, &payload, key).err(),
        Some(VaultErr::Format(FormatError::Corrupt))
    );
}

#[test]
fn changes_are_kept_in_the_session() {
    let mut session = filled_session("pw");
    assert_eq!(session.insert(entry("mail", b"x"), false), Err(StoreError::DuplicateLabel));
    assert_eq!(session.get("mail").unwrap().secret, b"one".to_vec());
    assert_eq!(session.insert(entry("mail", b"x"), true), Ok(()));
    assert_eq!(session.get("mail").unwrap().secret, b"x".to_vec());
    assert_eq!(session.update(entry("nowhere", b"y")), Err(StoreError::LabelNotFound));
    assert_eq!(session.update(entry("bank", b"y")), Ok(()));
    assert_eq!(session.remove("forum"), Some(entry("forum", b"three")));
    assert_eq!(session.remove("forum"), None);
    let labels: Vec<&str> = session.list().iter().map(|e| e.label.as_str()).collect();
    assert_eq!(labels, vec!["mail", "bank"]);
    let bytes = session.seal_with(&[2; 16]).unwrap();
    let reopened = parsed(bytes).unlock("pw", 0).ok().unwrap();
    assert_eq!(reopened.list(), session.list());
}

#[test]
fn wipe_erases_the_session() {
    let mut session = filled_session("pw");
    session.wipe();
    assert!(session.list().is_empty());
    assert_eq!(session.metadata().salt, salt16());
    assert_eq!(session.metadata().kdf, CHEAP);
    assert_eq!(session.metadata().compatible_version, CompatibleVersion::Any);
}
