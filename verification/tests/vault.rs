use aes_gcm::aead::Aead;
use aes_gcm::KeyInit;
use ironvault::crypto::{
    decrypt_payload, derive_key, encrypt_payload, encrypt_with, CryptoError, NONCE_LEN, SALT_LEN,
};
use ironvault::ident::Uuid;
use ironvault::model::VaultData;

fn reference_key(password: &[u8], salt: &[u8]) -> [u8; 32] {
    let params = argon2::Params::new(65536, 3, 4, Some(32)).unwrap();
    let mut key = [0u8; 32];
    argon2::Argon2::new(argon2::Algorithm::Argon2id, argon2::Version::V0x13, params)
        .hash_password_into(password, salt, &mut key)
        .unwrap();
    key
}

#[test]
fn key_is_that_of_argon2id() {
    let key = derive_key(b"password", b"somesaltsomesalt").unwrap();
    assert_eq!(
        key.as_bytes(),
        &reference_key(b"password", b"somesaltsomesalt")
    );
    let other = derive_key(b"password", b"somesaltsomesalu").unwrap();
    assert_ne!(key.as_bytes(), other.as_bytes());
}

#[test]
fn short_salt_is_refused() {
    assert_eq!(
        derive_key(b"password", b"1234567").err(),
        Some(CryptoError::SaltTooShort)
    );
    assert!(derive_key(b"password", b"12345678").is_ok());
}

#[test]
fn payload_has_its_parts_in_order() {
    let salt = [7u8; 16];
    let nonce = [9u8; 12];
    let payload = encrypt_with(b"the contents", "pass", &salt, &nonce).unwrap();
    assert_eq!(payload.len(), SALT_LEN + NONCE_LEN + 12 + 16);
    assert_eq!(payload[..16], salt);
    assert_eq!(payload[16..28], nonce);
    let cipher = aes_gcm::Aes256Gcm::new(&reference_key(b"pass", &salt).into());
    let opened = cipher.decrypt(&nonce.into(), &payload[28..]).unwrap();
    assert_eq!(opened, b"the contents");
    assert_eq!(decrypt_payload(&payload, "pass").unwrap(), b"the contents");
}

#[test]
fn sealed_payload_opens_again() {
    let payload = encrypt_payload(b"", "p\u{e4}ss").unwrap();
    assert_eq!(payload.len(), 44);
    assert_eq!(decrypt_payload(&payload, "p\u{e4}ss").unwrap(), b"");
    let again = encrypt_payload(b"", "p\u{e4}ss").unwrap();
    assert_ne!(payload[..28], again[..28]);
}

#[test]
fn wrong_password_and_damage_are_refused() {
    let mut payload = encrypt_payload(b"data", "right").unwrap();
    assert_eq!(
        decrypt_payload(&payload, "wrong").unwrap_err(),
        CryptoError::OpenFailed
    );
    let last = payload.len() - 1;
    payload[last] ^= 1;
    let error = decrypt_payload(&payload, "right").unwrap_err();
    assert_eq!(
        error.message(),
        "Decryption failed: Incorrect password or corrupted vault"
    );
}

#[test]
fn short_payload_is_refused() {
    let error = decrypt_payload(&[0; 27], "x").unwrap_err();
    assert_eq!(error, CryptoError::PayloadTooShort);
    assert_eq!(error.message(), "Encrypted data is malformed or too short");
    assert_eq!(
        decrypt_payload(&[0; 28], "x").unwrap_err(),
        CryptoError::OpenFailed
    );
    assert_eq!(
        decrypt_payload(&[0; 43], "x").unwrap_err(),
        CryptoError::OpenFailed
    );
}

#[test]
fn errors_have_their_texts() {
    assert_eq!(
        CryptoError::PasswordTooLong.message(),
        argon2::Error::PwdTooLong.to_string()
    );
    assert_eq!(
        CryptoError::SaltTooShort.message(),
        argon2::Error::SaltTooShort.to_string()
    );
    assert_eq!(
        CryptoError::SaltTooLong.message(),
        argon2::Error::SaltTooLong.to_string()
    );
    assert_eq!(CryptoError::SealFailed.message(), aes_gcm::Error.to_string());
}

#[test]
fn added_file_is_kept_and_deleted() {
    let mut vault = VaultData::default();
    assert!(vault.files.is_empty());
    let id = vault.add_file("a".to_string(), vec![1, 2, 3]);
    assert_eq!(id.bytes[6] >> 4, 4);
    assert_eq!(id.bytes[8] >> 6, 2);
    let other = vault.add_file("b".to_string(), Vec::new());
    assert_eq!(vault.files.len(), 2);
    assert_eq!(vault.files[0].id, id);
    assert_eq!(vault.files[0].file_name, "a");
    assert_eq!(vault.files[0].file_size_bytes, 3);
    assert_eq!(vault.files[0].data, vec![1, 2, 3]);
    assert!(vault.delete_file(id));
    assert!(!vault.delete_file(id));
    assert_eq!(vault.files.len(), 1);
    assert_eq!(vault.files[0].id, other);
}

#[test]
fn rename_touches_the_first_and_delete_all() {
    let mut vault = VaultData::default();
    let id = Uuid { bytes: [5; 16] };
    vault.add_file_with_id(id, "one".to_string(), vec![1]);
    vault.add_file_with_id(Uuid::nil(), "two".to_string(), vec![2]);
    vault.add_file_with_id(id, "three".to_string(), vec![3]);
    assert!(vault.rename_file(id, "renamed".to_string()));
    let names: Vec<&str> = vault.files.iter().map(|f| f.file_name.as_str()).collect();
    assert_eq!(names, vec!["renamed", "two", "three"]);
    assert_eq!(vault.files[0].data, vec![1]);
    assert!(!vault.rename_file(Uuid { bytes: [6; 16] }, "none".to_string()));
    assert!(vault.delete_file(id));
    assert_eq!(vault.files.len(), 1);
    assert_eq!(vault.files[0].file_name, "two");
}

#[test]
fn identifiers_come_from_sixteen_bytes() {
    let bytes: Vec<u8> = (1..17).collect();
    let id = Uuid::from_slice(&bytes).unwrap();
    assert_eq!(id.to_vec(), bytes);
    assert!(id.same_as(&id));
    assert!(!id.same_as(&Uuid::nil()));
    assert!(Uuid::from_slice(&bytes[1..]).is_none());
    assert_eq!(Uuid::from_slice_or_nil(&bytes), id);
    assert_eq!(Uuid::from_slice_or_nil(&[]), Uuid::nil());
    assert_eq!(Uuid::nil().bytes, [0; 16]);
}
