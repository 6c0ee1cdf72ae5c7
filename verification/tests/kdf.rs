use vault::kdf::DerivedKey;
use vault::layout::KdfParams;

const CHEAP: KdfParams = KdfParams { algorithm: 1, m_cost: 8, t_cost: 1, p_cost: 1 };

fn salt16() -> Vec<u8> {
    (1u8..=16).collect()
}

#[test]
fn derive_gives_the_expected_key_and_verifier() {
    let key = vault::kdf::derive("correct horse battery staple", &salt16(), &CHEAP).unwrap();
    assert_eq!(
        key.key_bytes(),
        &[
            164, 150, 107, 179, 236, 193, 23, 237, 228, 6, 120, 62, 13, 26, 160, 35, 225, 131, 191,
            112, 86, 219, 82, 146, 107, 228, 0, 204, 121, 218, 173, 109
        ]
    );
    assert_eq!(
        key.verifier_bytes(),
        &[
            84, 246, 155, 134, 195, 87, 110, 167, 49, 36, 53, 115, 193, 134, 7, 144, 188, 122, 4,
            54, 94, 169, 118, 194, 156, 115, 54, 135, 18, 221, 37, 159
        ]
    );
}

#[test]
fn derive_takes_the_password_as_utf8_and_uses_every_parameter() {
    let params = KdfParams { algorithm: 1, m_cost: 16, t_cost: 2, p_cost: 2 };
    let key = vault::kdf::derive("pässwörd", b"saltsalt", &params).unwrap();
    assert_eq!(
        key.key_bytes(),
        &[
            40, 49, 149, 62, 50, 118, 48, 243, 208, 186, 109, 247, 68, 137, 10, 215, 175, 121, 194,
            157, 24, 179, 250, 93, 83, 141, 79, 93, 228, 242, 78, 147
        ]
    );
    assert_eq!(
        key.verifier_bytes(),
        &[
            210, 203, 224, 62, 128, 174, 201, 167, 203, 27, 59, 131, 187, 172, 111, 85, 70, 242, 6,
            138, 77, 14, 26, 203, 108, 104, 198, 15, 186, 131, 4, 67
        ]
    );
}

#[test]
fn derive_is_deterministic() {
    let a = vault::kdf::derive("secret", &salt16(), &CHEAP).unwrap();
    let b = vault::kdf::derive("secret", &salt16(), &CHEAP).unwrap();
    assert_eq!(a.key_bytes(), b.key_bytes());
    assert_eq!(a.verifier_bytes(), b.verifier_bytes());
}

#[test]
fn password_and_salt_both_change_the_key() {
    let a = vault::kdf::derive("secret", &salt16(), &CHEAP).unwrap();
    let b = vault::kdf::derive("Secret", &salt16(), &CHEAP).unwrap();
    let c = vault::kdf::derive("secret", &[9u8; 16], &CHEAP).unwrap();
    assert_ne!(a.key_bytes(), b.key_bytes());
    assert_ne!(a.verifier_bytes(), b.verifier_bytes());
    assert_ne!(a.key_bytes(), c.key_bytes());
    assert_ne!(a.verifier_bytes(), c.verifier_bytes());
}

#[test]
fn key_and_verifier_differ_and_have_32_bytes() {
    let k = vault::kdf::derive("secret", &salt16(), &CHEAP).unwrap();
    assert_eq!(k.key_bytes().len(), 32);
    assert_eq!(k.verifier_bytes().len(), 32);
    assert_ne!(k.key_bytes(), k.verifier_bytes());
}

#[test]
fn an_empty_password_is_stretched_too() {
    assert!(vault::kdf::derive("", &salt16(), &CHEAP).is_some());
}

#[test]
fn parameters_out_of_range_give_no_key() {
    let base = CHEAP;
    assert!(vault::kdf::derive("pw", &salt16(), &KdfParams { algorithm: 0, ..base }).is_none());
    assert!(vault::kdf::derive("pw", &salt16(), &KdfParams { algorithm: 2, ..base }).is_none());
    assert!(vault::kdf::derive("pw", &salt16(), &KdfParams { m_cost: 7, ..base }).is_none());
    assert!(vault::kdf::derive("pw", &salt16(), &KdfParams { m_cost: 0x10_0001, ..base }).is_none());
    assert!(vault::kdf::derive("pw", &salt16(), &KdfParams { t_cost: 0, ..base }).is_none());
    assert!(vault::kdf::derive("pw", &salt16(), &KdfParams { t_cost: 0x1_0001, ..base }).is_none());
    assert!(vault::kdf::derive("pw", &salt16(), &KdfParams { p_cost: 0, ..base }).is_none());
    assert!(vault::kdf::derive("pw", &salt16(), &KdfParams { p_cost: 256, m_cost: 4096, ..base }).is_none());
    assert!(vault::kdf::derive("pw", &salt16(), &KdfParams { p_cost: 2, m_cost: 15, ..base }).is_none());
    assert!(vault::kdf::derive("pw", &salt16(), &KdfParams { p_cost: 2, m_cost: 16, ..base }).is_some());
}

#[test]
fn a_salt_out_of_range_gives_no_key() {
    assert!(vault::kdf::derive("pw", &[0u8; 7], &CHEAP).is_none());
    assert!(vault::kdf::derive("pw", &[0u8; 8], &CHEAP).is_some());
    assert!(vault::kdf::derive("pw", &[0u8; 64], &CHEAP).is_some());
    assert!(vault::kdf::derive("pw", &[0u8; 65], &CHEAP).is_none());
}

#[test]
fn acceptable_parameters_are_recognised() {
    assert!(CHEAP.is_acceptable());
    assert!(KdfParams::recommended().is_acceptable());
    assert_eq!(
        KdfParams::recommended(),
        KdfParams { algorithm: 1, m_cost: 19456, t_cost: 2, p_cost: 1 }
    );
    assert!(!KdfParams { algorithm: 1, m_cost: 8, t_cost: 1, p_cost: 2 }.is_acceptable());
    assert!(KdfParams { algorithm: 1, m_cost: 0x10_0000, t_cost: 0x1_0000, p_cost: 255 }
        .is_acceptable());
}

#[test]
fn verify_compares_with_the_stored_verifier() {
    let k = vault::kdf::derive("secret", &salt16(), &CHEAP).unwrap();
    let stored = k.verifier_bytes().to_vec();
    assert!(k.verify(&stored));
    let mut changed = stored.clone();
    changed[31] ^= 1;
    assert!(!k.verify(&changed));
    assert!(!k.verify(&stored[..31]));
    assert!(!k.verify(&[]));
}

#[test]
fn from_parts_wants_32_bytes_each() {
    let k = DerivedKey::from_parts(vec![1; 32], vec![2; 32]).unwrap();
    assert_eq!(k.key_bytes(), &[1u8; 32]);
    assert_eq!(k.verifier_bytes(), &[2u8; 32]);
    assert!(DerivedKey::from_parts(vec![1; 31], vec![2; 32]).is_none());
    assert!(DerivedKey::from_parts(vec![1; 32], vec![2; 33]).is_none());
    assert!(DerivedKey::from_parts(Vec::new(), Vec::new()).is_none());
}

#[test]
fn expand_gives_the_two_labelled_keys() {
    let master = [
        0xac, 0x44, 0xba, 0x05, 0x4e, 0x14, 0x6f, 0x1b, 0x0e, 0x9f, 0x51, 0x22, 0x0c, 0x66, 0xde,
        0xc2, 0x96, 0xf9, 0x36, 0x08, 0x69, 0x2c, 0xca, 0xba, 0x8a, 0xab, 0xe7, 0xad, 0xc5, 0xd4,
        0xb6, 0x4b,
    ];
    let k = DerivedKey::expand(&master).unwrap();
    let d = vault::kdf::derive("correct horse battery staple", &salt16(), &CHEAP).unwrap();
    assert_eq!(k.key_bytes(), d.key_bytes());
    assert_eq!(k.verifier_bytes(), d.verifier_bytes());
    assert_ne!(k.key_bytes(), &master);
}

#[test]
fn wipe_erases_key_and_verifier() {
    let mut k = vault::kdf::derive("secret", &salt16(), &CHEAP).unwrap();
    k.wipe();
    assert!(k.key_bytes().is_empty());
    assert!(k.verifier_bytes().is_empty());
}
