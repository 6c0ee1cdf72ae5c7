use vault::crypto::{decrypt, encrypt, make_nonce, read_sequence};
use vault::error::AuthError;
use vault::kdf::DerivedKey;

const PLAINTEXT: &[u8] = b"Ladies and Gentlemen of the class of '99: \
    If I could offer you only one tip for the future, sunscreen would be it.";

const AAD: [u8; 12] = [0x50, 0x51, 0x52, 0x53, 0xc0, 0xc1, 0xc2, 0xc3, 0xc4, 0xc5, 0xc6, 0xc7];

const CIPHERTEXT: [u8; 114] = [
    0xbd, 0x6d, 0x17, 0x9d, 0x3e, 0x83, 0xd4, 0x3b, 0x95, 0x76, 0x57, 0x94, 0x93, 0xc0, 0xe9, 0x39,
    0x57, 0x2a, 0x17, 0x00, 0x25, 0x2b, 0xfa, 0xcc, 0xbe, 0xd2, 0x90, 0x2c, 0x21, 0x39, 0x6c, 0xbb,
    0x73, 0x1c, 0x7f, 0x1b, 0x0b, 0x4a, 0xa6, 0x44, 0x0b, 0xf3, 0xa8, 0x2f, 0x4e, 0xda, 0x7e, 0x39,
    0xae, 0x64, 0xc6, 0x70, 0x8c, 0x54, 0xc2, 0x16, 0xcb, 0x96, 0xb7, 0x2e, 0x12, 0x13, 0xb4, 0x52,
    0x2f, 0x8c, 0x9b, 0xa4, 0x0d, 0xb5, 0xd9, 0x45, 0xb1, 0x1b, 0x69, 0xb9, 0x82, 0xc1, 0xbb, 0x9e,
    0x3f, 0x3f, 0xac, 0x2b, 0xc3, 0x69, 0x48, 0x8f, 0x76, 0xb2, 0x38, 0x35, 0x65, 0xd3, 0xff, 0xf9,
    0x21, 0xf9, 0x66, 0x4c, 0x97, 0x63, 0x7d, 0xa9, 0x76, 0x88, 0x12, 0xf6, 0x15, 0xc6, 0x8b, 0x13,
    0xb5, 0x2e,
];

const TAG: [u8; 16] = [
    0xc0, 0x87, 0x59, 0x24, 0xc1, 0xc7, 0x98, 0x79, 0x47, 0xde, 0xaf, 0xd8, 0x78, 0x0a, 0xcf, 0x49,
];

fn vector_key() -> DerivedKey {
    DerivedKey::from_parts((0x80u8..=0x9f).collect(), vec![0; 32]).unwrap()
}

fn vector_nonce() -> Vec<u8> {
    (0x40u8..=0x57).collect()
}

#[test]
fn encrypt_matches_the_published_vector() {
    let (ciphertext, tag) = encrypt(&vector_key(), &vector_nonce(), PLAINTEXT, &AAD).unwrap();
    assert_eq!(ciphertext, CIPHERTEXT.to_vec());
    assert_eq!(tag, TAG.to_vec());
}

#[test]
fn decrypt_matches_the_published_vector() {
    let plaintext = decrypt(&vector_key(), &vector_nonce(), &CIPHERTEXT, &TAG, &AAD).unwrap();
    assert_eq!(plaintext, PLAINTEXT.to_vec());
}

#[test]
fn decrypt_inverts_encrypt() {
    let key = DerivedKey::from_parts(vec![7; 32], vec![8; 32]).unwrap();
    let nonce = make_nonce(1, &[3; 16]);
    for len in [0usize, 1, 63, 64, 65, 1000] {
        let plaintext: Vec<u8> = (0..len).map(|i| (i % 251) as u8).collect();
        let (ciphertext, tag) = encrypt(&key, &nonce, &plaintext, b"header").unwrap();
        assert_eq!(ciphertext.len(), len);
        assert_eq!(tag.len(), 16);
        assert_eq!(decrypt(&key, &nonce, &ciphertext, &tag, b"header"), Ok(plaintext));
    }
}

#[test]
fn every_flipped_bit_fails_the_same_way() {
    let key = vector_key();
    let nonce = vector_nonce();
    for i in 0..CIPHERTEXT.len() * 8 {
        let mut c = CIPHERTEXT.to_vec();
        c[i / 8] ^= 1 << (i % 8);
        assert_eq!(decrypt(&key, &nonce, &c, &TAG, &AAD), Err(AuthError::TamperedOrWrongKey));
    }
    for i in 0..TAG.len() * 8 {
        let mut t = TAG.to_vec();
        t[i / 8] ^= 1 << (i % 8);
        assert_eq!(decrypt(&key, &nonce, &CIPHERTEXT, &t, &AAD), Err(AuthError::TamperedOrWrongKey));
    }
    for i in 0..AAD.len() * 8 {
        let mut a = AAD.to_vec();
        a[i / 8] ^= 1 << (i % 8);
        assert_eq!(decrypt(&key, &nonce, &CIPHERTEXT, &TAG, &a), Err(AuthError::TamperedOrWrongKey));
    }
    for i in 0..nonce.len() * 8 {
        let mut n = nonce.clone();
        n[i / 8] ^= 1 << (i % 8);
        assert_eq!(decrypt(&key, &n, &CIPHERTEXT, &TAG, &AAD), Err(AuthError::TamperedOrWrongKey));
    }
}

#[test]
fn a_wrong_key_fails_like_tampering() {
    let other = DerivedKey::from_parts(vec![0x81; 32], vec![0; 32]).unwrap();
    assert_eq!(
        decrypt(&other, &vector_nonce(), &CIPHERTEXT, &TAG, &AAD),
        Err(AuthError::TamperedOrWrongKey)
    );
}

#[test]
fn fields_of_the_wrong_length_are_refused() {
    let key = vector_key();
    assert!(encrypt(&key, &[0; 12], PLAINTEXT, &AAD).is_none());
    assert!(encrypt(&key, &[0; 25], PLAINTEXT, &AAD).is_none());
    assert_eq!(
        decrypt(&key, &[0; 12], &CIPHERTEXT, &TAG, &AAD),
        Err(AuthError::TamperedOrWrongKey)
    );
    assert_eq!(
        decrypt(&key, &vector_nonce(), &CIPHERTEXT, &TAG[..15], &AAD),
        Err(AuthError::TamperedOrWrongKey)
    );
    let mut wiped = vector_key();
    wiped.wipe();
    assert!(encrypt(&wiped, &vector_nonce(), PLAINTEXT, &AAD).is_none());
    assert_eq!(
        decrypt(&wiped, &vector_nonce(), &CIPHERTEXT, &TAG, &AAD),
        Err(AuthError::TamperedOrWrongKey)
    );
}

#[test]
fn a_nonce_is_the_counter_then_the_random_part() {
    let nonce = make_nonce(0x0102_0304_0506_0708, &[0xEE; 16]);
    let mut expected = vec![1, 2, 3, 4, 5, 6, 7, 8];
    expected.extend_from_slice(&[0xEE; 16]);
    assert_eq!(nonce, expected);
    assert_eq!(read_sequence(&nonce), Some(0x0102_0304_0506_0708));
    assert_eq!(read_sequence(&make_nonce(0, &[0; 16])), Some(0));
    assert_eq!(read_sequence(&make_nonce(u64::MAX, &[0; 16])), Some(u64::MAX));
    assert_eq!(read_sequence(&make_nonce(5, &[])), Some(5));
    assert_eq!(read_sequence(&[0, 0, 0, 0, 0, 0, 5]), None);
    assert_eq!(make_nonce(5, &[1, 2]), vec![0, 0, 0, 0, 0, 0, 0, 5, 1, 2]);
}

#[test]
fn nonces_of_different_saves_differ() {
    assert_ne!(make_nonce(1, &[5; 16]), make_nonce(2, &[5; 16]));
    assert_ne!(make_nonce(0xFFFF_FFFF, &[5; 16]), make_nonce(0x1_0000_0000, &[5; 16]));
}
